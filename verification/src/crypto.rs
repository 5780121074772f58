//! Key derivation (Argon2id) and authenticated encryption (AES-256-GCM) of secrets,
//! with base64-encoded fields.
use vstd::prelude::*;
use vstd::utf8::encode_utf8;

use aes_gcm::aead::{Aead, KeyInit};
use aes_gcm::{Aes256Gcm, Nonce};
use base64::engine::general_purpose::STANDARD as BASE64;
use base64::Engine;
use rand::RngCore;

verus! {

/// Argon2id KDF parameters, stored beside the encrypted data so that
/// decryption can derive the same key again.
#[derive(Debug, Clone)]
pub struct KdfParams {
    /// Base64-encoded 32-byte salt
    pub salt: String,
    /// Memory cost in KiB (default: 65536 = 64 MiB)
    pub memory_cost: u32,
    /// Number of iterations (default: 3)
    pub time_cost: u32,
    /// Degree of parallelism (default: 1)
    pub parallelism: u32,
}

/// Encrypted payload: a 12-byte nonce and the AES-256-GCM ciphertext (tag included),
/// both base64-encoded.
#[derive(Debug, Clone)]
pub struct EncryptedBlob {
    pub nonce: String,
    pub ciphertext: String,
}

/// A derived 32-byte key.
pub struct DerivedKey([u8; 32]);

impl DerivedKey {
    pub closed spec fn key(&self) -> Seq<u8> {
        self.0@
    }

    pub fn as_bytes(&self) -> (b: &[u8; 32])
        ensures
            b@ == self.key(),
    {
        &self.0
    }
}

/// Errors of key derivation and encryption.
#[derive(Debug)]
pub enum CryptoError {
    KdfError(String),
    EncryptionError(String),
    DecryptionError(String),
    InvalidInput(String),
}

/// Mathematical model of a crypto error.
pub enum CryptoErrorModel {
    KdfError(Seq<char>),
    EncryptionError(Seq<char>),
    DecryptionError(Seq<char>),
    InvalidInput(Seq<char>),
}

impl View for CryptoError {
    type V = CryptoErrorModel;

    open spec fn view(&self) -> CryptoErrorModel {
        match self {
            CryptoError::KdfError(s) => CryptoErrorModel::KdfError(s@),
            CryptoError::EncryptionError(s) => CryptoErrorModel::EncryptionError(s@),
            CryptoError::DecryptionError(s) => CryptoErrorModel::DecryptionError(s@),
            CryptoError::InvalidInput(s) => CryptoErrorModel::InvalidInput(s@),
        }
    }
}

/// Model of a blob: its two base64 texts.
pub struct BlobModel {
    pub nonce: Seq<char>,
    pub ciphertext: Seq<char>,
}

impl View for EncryptedBlob {
    type V = BlobModel;

    open spec fn view(&self) -> BlobModel {
        BlobModel { nonce: self.nonce@, ciphertext: self.ciphertext@ }
    }
}

// ─── Outside functions ───────────────────────────────────────────
/// Standard base64 (with padding) of the bytes.
pub uninterp spec fn b64_encode(b: Seq<u8>) -> Seq<char>;

/// Standard base64 decoding of a text: the bytes, or the text of the decode error.
pub uninterp spec fn b64_decode(s: Seq<char>) -> Result<Seq<u8>, Seq<char>>;

/// Argon2id (version 0x13) with the given memory cost, iterations and parallelism,
/// 32-byte output: the key, or the text of the parameter or input error.
pub uninterp spec fn argon2id_key(password: Seq<u8>, salt: Seq<u8>, m: u32, t: u32, p: u32) -> Result<
    Seq<u8>,
    Seq<char>,
>;

/// AES-256-GCM encryption without associated data: ciphertext with its tag,
/// or the text of the error.
pub uninterp spec fn aes256gcm_seal(key: Seq<u8>, nonce: Seq<u8>, plaintext: Seq<u8>) -> Result<
    Seq<u8>,
    Seq<char>,
>;

/// AES-256-GCM decryption without associated data: the plaintext if the tag checks.
pub uninterp spec fn aes256gcm_open(key: Seq<u8>, nonce: Seq<u8>, ciphertext: Seq<u8>) -> Option<
    Seq<u8>,
>;

pub open spec fn text_result(r: Result<Vec<u8>, String>) -> Result<Seq<u8>, Seq<char>> {
    match r {
        Ok(v) => Ok(v@),
        Err(e) => Err(e@),
    }
}

/// Whether encrypting `p` under `key` and `nonce` gives exactly `c`.
pub open spec fn seals_to(key: Seq<u8>, nonce: Seq<u8>, p: Seq<u8>, c: Seq<u8>) -> bool {
    aes256gcm_seal(key, nonce, p) == Ok::<Seq<u8>, Seq<char>>(c)
}

pub open spec fn opt_view(r: Option<Vec<u8>>) -> Option<Seq<u8>> {
    match r {
        Some(v) => Some(v@),
        None => None,
    }
}

pub open spec fn key_text_result(r: Result<[u8; 32], String>) -> Result<Seq<u8>, Seq<char>> {
    match r {
        Ok(k) => Ok(k@),
        Err(e) => Err(e@),
    }
}

/// Whether standard base64 decoding of `text` gives `b`.
pub open spec fn decodes_to(text: Seq<char>, b: Seq<u8>) -> bool {
    b64_decode(text) == Ok::<Seq<u8>, Seq<char>>(b)
}

/// `Engine::encode` of the standard base64 engine. Decoding the text it gives
/// yields the bytes back.
#[verifier::external_body]
fn base64_encode(b: &[u8]) -> (s: String)
    ensures
        s@ == b64_encode(b@),
        decodes_to(s@, b@),
{
    BASE64.encode(b)
}

/// `Engine::decode` of the standard base64 engine. Decoding the encoding of some
/// bytes gives those bytes back.
#[verifier::external_body]
fn base64_decode(s: &str) -> (r: Result<Vec<u8>, String>)
    ensures
        text_result(r) == b64_decode(s@),
        forall|b: Seq<u8>| s@ == #[trigger] b64_encode(b) ==> r is Ok && r->Ok_0@ == b,
{
    BASE64.decode(s).map_err(|e| e.to_string())
}

/// `Argon2::new(Argon2id, V0x13, Params::new(m, t, p, Some(32))?)` followed by
/// `hash_password_into` a 32-byte buffer; either error is given as its text.
#[verifier::external_body]
fn argon2id_hash(password: &[u8], salt: &[u8], m: u32, t: u32, p: u32) -> (r: Result<[u8; 32], String>)
    ensures
        key_text_result(r) == argon2id_key(password@, salt@, m, t, p),
{
    let params = argon2::Params::new(m, t, p, Some(32)).map_err(|e| e.to_string())?;
    let argon2 = argon2::Argon2::new(argon2::Algorithm::Argon2id, argon2::Version::V0x13, params);
    let mut key = [0u8; 32];
    argon2.hash_password_into(password, salt, &mut key).map_err(|e| e.to_string())?;
    Ok(key)
}

/// `Aead::encrypt` of `Aes256Gcm` keyed with `key`, with no associated data. The
/// ciphertext it gives decrypts, under the same key and nonce, to the plaintext.
#[verifier::external_body]
fn aes_gcm_encrypt(key: &[u8; 32], nonce: &[u8; 12], plaintext: &[u8]) -> (r: Result<Vec<u8>, String>)
    ensures
        text_result(r) == aes256gcm_seal(key@, nonce@, plaintext@),
        r matches Ok(c) ==> aes256gcm_open(key@, nonce@, c@) == Some(plaintext@),
{
    let cipher = Aes256Gcm::new(key.into());
    cipher.encrypt(Nonce::from_slice(nonce), plaintext).map_err(|e| e.to_string())
}

/// `Aead::decrypt` of `Aes256Gcm` keyed with `key`, with no associated data.
/// A ciphertext that encryption under the same key and nonce produced decrypts
/// to the plaintext it came from.
#[verifier::external_body]
fn aes_gcm_decrypt(key: &[u8; 32], nonce: &[u8], ciphertext: &[u8]) -> (r: Option<Vec<u8>>)
    requires
        nonce@.len() == 12,
    ensures
        opt_view(r) == aes256gcm_open(key@, nonce@, ciphertext@),
        forall|p: Seq<u8>| #[trigger] seals_to(key@, nonce@, p, ciphertext@) ==> opt_view(r) == Some(p),
{
    let cipher = Aes256Gcm::new(key.into());
    cipher.decrypt(Nonce::from_slice(nonce), ciphertext).ok()
}

/// 32 bytes from the operating system's random source.
#[verifier::external_body]
pub(crate) fn os_random_32() -> [u8; 32] {
    let mut b = [0u8; 32];
    rand::rngs::OsRng.fill_bytes(&mut b);
    b
}

/// 12 bytes from the operating system's random source.
#[verifier::external_body]
fn os_random_12() -> [u8; 12] {
    let mut b = [0u8; 12];
    rand::rngs::OsRng.fill_bytes(&mut b);
    b
}

// ─── Models ──────────────────────────────────────────────────────
pub open spec fn derive_key_model(password: Seq<char>, params: KdfParams) -> Result<Seq<u8>, CryptoErrorModel> {
    match b64_decode(params.salt@) {
        Err(e) => Err(CryptoErrorModel::InvalidInput("bad base64 salt: "@ + e)),
        Ok(salt) => match argon2id_key(
            encode_utf8(password),
            salt,
            params.memory_cost,
            params.time_cost,
            params.parallelism,
        ) {
            Ok(k) => Ok(k),
            Err(e) => Err(CryptoErrorModel::KdfError(e)),
        },
    }
}

/// The blob that encrypting `plaintext` under `key` with `nonce` gives.
pub open spec fn encrypt_model(plaintext: Seq<u8>, key: Seq<u8>, nonce: Seq<u8>) -> Result<BlobModel, CryptoErrorModel> {
    match aes256gcm_seal(key, nonce, plaintext) {
        Ok(c) => Ok(BlobModel { nonce: b64_encode(nonce), ciphertext: b64_encode(c) }),
        Err(e) => Err(CryptoErrorModel::EncryptionError(e)),
    }
}

/// Whether decryption of the blob can proceed without the nonce having a wrong
/// length (the case in which the cipher refuses the nonce).
pub open spec fn nonce_fits(blob: BlobModel) -> bool {
    match (b64_decode(blob.nonce), b64_decode(blob.ciphertext)) {
        (Ok(n), Ok(_)) => n.len() == 12,
        _ => true,
    }
}

pub open spec fn decryption_failed_text() -> Seq<char> {
    "decryption failed: wrong key or corrupted data"@
}

/// What decrypting the blob under `key` gives.
pub open spec fn decrypt_model(blob: BlobModel, key: Seq<u8>) -> Result<Seq<u8>, CryptoErrorModel> {
    match b64_decode(blob.nonce) {
        Err(e) => Err(CryptoErrorModel::InvalidInput("bad base64 nonce: "@ + e)),
        Ok(n) => match b64_decode(blob.ciphertext) {
            Err(e) => Err(CryptoErrorModel::InvalidInput("bad base64 ciphertext: "@ + e)),
            Ok(c) => match aes256gcm_open(key, n, c) {
                Some(p) => Ok(p),
                None => Err(CryptoErrorModel::DecryptionError(decryption_failed_text())),
            },
        },
    }
}

pub open spec fn key_result(r: Result<DerivedKey, CryptoError>) -> Result<Seq<u8>, CryptoErrorModel> {
    match r {
        Ok(k) => Ok(k.key()),
        Err(e) => Err(e@),
    }
}

pub open spec fn blob_result(r: Result<EncryptedBlob, CryptoError>) -> Result<BlobModel, CryptoErrorModel> {
    match r {
        Ok(b) => Ok(b@),
        Err(e) => Err(e@),
    }
}

pub open spec fn bytes_result(r: Result<Vec<u8>, CryptoError>) -> Result<Seq<u8>, CryptoErrorModel> {
    match r {
        Ok(v) => Ok(v@),
        Err(e) => Err(e@),
    }
}

fn prefixed(prefix: &str, e: String) -> (s: String)
    ensures
        s@ == prefix@ + e@,
{
    let mut s = String::new();
    s.append(prefix);
    s.append(e.as_str());
    s
}

// ─── Operations ──────────────────────────────────────────────────
impl Default for KdfParams {
    /// A fresh random salt, 64 MiB memory, 3 iterations, parallelism 1.
    fn default() -> (p: Self)
        ensures
            p.memory_cost == 65_536,
            p.time_cost == 3,
            p.parallelism == 1,
            exists|s: Seq<u8>| s.len() == 32 && p.salt@ == #[trigger] b64_encode(s),
    {
        let salt = generate_salt();
        KdfParams { salt: base64_encode(&salt), memory_cost: 65_536, time_cost: 3, parallelism: 1 }
    }
}

/// A random 32-byte salt from the operating system's random source.
pub fn generate_salt() -> (s: [u8; 32]) {
    os_random_32()
}

/// Derive a 32-byte key from a password using Argon2id.
pub fn derive_key(password: &str, params: &KdfParams) -> (r: Result<DerivedKey, CryptoError>)
    ensures
        key_result(r) == derive_key_model(password@, *params),
{
    let salt_bytes = match base64_decode(params.salt.as_str()) {
        Ok(b) => b,
        Err(e) => return Err(CryptoError::InvalidInput(prefixed("bad base64 salt: ", e))),
    };
    match argon2id_hash(
        password.as_bytes(),
        salt_bytes.as_slice(),
        params.memory_cost,
        params.time_cost,
        params.parallelism,
    ) {
        Ok(k) => Ok(DerivedKey(k)),
        Err(e) => Err(CryptoError::KdfError(e)),
    }
}

/// Encrypt `plaintext` with AES-256-GCM under `key` and the given 12-byte nonce.
pub fn encrypt_with_nonce(plaintext: &[u8], key: &[u8; 32], nonce: &[u8; 12]) -> (r: Result<
    EncryptedBlob,
    CryptoError,
>)
    ensures
        blob_result(r) == encrypt_model(plaintext@, key@, nonce@),
        r matches Ok(b) ==> nonce_fits(b@) && decrypt_model(b@, key@) == Ok::<Seq<u8>, CryptoErrorModel>(plaintext@),
{
    match aes_gcm_encrypt(key, nonce, plaintext) {
        Ok(c) => Ok(
            EncryptedBlob { nonce: base64_encode(nonce), ciphertext: base64_encode(c.as_slice()) },
        ),
        Err(e) => Err(CryptoError::EncryptionError(e)),
    }
}

/// Encrypt `plaintext` with AES-256-GCM under `key`, with a fresh random 12-byte nonce.
pub fn encrypt(plaintext: &[u8], key: &[u8; 32]) -> (r: Result<EncryptedBlob, CryptoError>)
    ensures
        exists|n: Seq<u8>| n.len() == 12 && blob_result(r) == #[trigger] encrypt_model(plaintext@, key@, n),
        r matches Ok(b) ==> nonce_fits(b@) && decrypt_model(b@, key@) == Ok::<Seq<u8>, CryptoErrorModel>(plaintext@),
{
    let nonce = os_random_12();
    let r = encrypt_with_nonce(plaintext, key, &nonce);
    assert(nonce@.len() == 12 && blob_result(r) == encrypt_model(plaintext@, key@, nonce@));
    r
}

/// Decrypt a blob with AES-256-GCM under `key`.
///
/// A blob whose nonce and ciphertext are valid base64 but whose nonce is not
/// 12 bytes long is refused by the cipher; it is outside what this function
/// accepts (`decrypt_checked` tests for it).
pub fn decrypt(blob: &EncryptedBlob, key: &[u8; 32]) -> (r: Result<Vec<u8>, CryptoError>)
    requires
        nonce_fits(blob@),
    ensures
        bytes_result(r) == decrypt_model(blob@, key@),
        forall|p: Seq<u8>, n: Seq<u8>|
            n.len() == 12 && #[trigger] encrypt_model(p, key@, n) == Ok::<BlobModel, CryptoErrorModel>(blob@)
                ==> bytes_result(r) == Ok::<Seq<u8>, CryptoErrorModel>(p),
{
    let nonce_bytes = match base64_decode(blob.nonce.as_str()) {
        Ok(b) => b,
        Err(e) => return Err(CryptoError::InvalidInput(prefixed("bad base64 nonce: ", e))),
    };
    let ciphertext_bytes = match base64_decode(blob.ciphertext.as_str()) {
        Ok(b) => b,
        Err(e) => return Err(CryptoError::InvalidInput(prefixed("bad base64 ciphertext: ", e))),
    };
    let r = match aes_gcm_decrypt(key, nonce_bytes.as_slice(), ciphertext_bytes.as_slice()) {
        Some(p) => Ok(p),
        None => Err(CryptoError::DecryptionError("decryption failed: wrong key or corrupted data".to_string())),
    };
    proof {
        assert forall|p: Seq<u8>, n: Seq<u8>|
            n.len() == 12 && #[trigger] encrypt_model(p, key@, n) == Ok::<BlobModel, CryptoErrorModel>(blob@)
            implies bytes_result(r) == Ok::<Seq<u8>, CryptoErrorModel>(p) by {
            let c = aes256gcm_seal(key@, n, p)->Ok_0;
            assert(seals_to(key@, n, p, c));
            assert(blob.nonce@ == b64_encode(n));
            assert(blob.ciphertext@ == b64_encode(c));
            assert(nonce_bytes@ == n);
            assert(ciphertext_bytes@ == c);
        }
    }
    r
}

/// Whether decrypting the blob can proceed (see `nonce_fits`).
pub fn blob_nonce_fits(blob: &EncryptedBlob) -> (r: bool)
    ensures
        r == nonce_fits(blob@),
{
    match (base64_decode(blob.nonce.as_str()), base64_decode(blob.ciphertext.as_str())) {
        (Ok(n), Ok(_)) => n.len() == 12,
        _ => true,
    }
}

/// Decrypt a blob, or `None` where `decrypt` would have the cipher refuse the
/// nonce (valid base64 of a length other than 12).
pub fn decrypt_checked(blob: &EncryptedBlob, key: &[u8; 32]) -> (r: Option<Result<Vec<u8>, CryptoError>>)
    ensures
        r is None <==> !nonce_fits(blob@),
        r matches Some(x) ==> bytes_result(x) == decrypt_model(blob@, key@),
{
    if blob_nonce_fits(blob) {
        Some(decrypt(blob, key))
    } else {
        None
    }
}

} // verus!
