use base64::engine::general_purpose::STANDARD as BASE64;
use base64::Engine;
use maze_ssh::crypto::{derive_key, encrypt, generate_salt, EncryptedBlob, KdfParams};
use maze_ssh::vault::{
    ExportPolicy, GenerateKeyInput, KeyAlgorithm, KeyState, SshKeyItem, SshKeyVault,
    UpdateKeyInput, VaultError, VaultMeta, VaultSession,
};
use ssh_key::{HashAlg, PrivateKey};

fn open(passphrase: &str) -> (VaultMeta, VaultSession) {
    let meta = SshKeyVault::init(passphrase, &None).unwrap();
    let session = SshKeyVault::unlock_checked(passphrase, &meta).unwrap().unwrap();
    (meta, session)
}

fn gen(session: &VaultSession, meta: &mut VaultMeta, name: &str, policy: Option<ExportPolicy>) -> (SshKeyItem, EncryptedBlob) {
    SshKeyVault::generate_key(
        session,
        GenerateKeyInput {
            name: name.into(),
            algorithm: KeyAlgorithm::Ed25519,
            comment: None,
            export_policy: policy,
            allowed_hosts: Vec::new(),
        },
        meta,
    )
    .unwrap()
}

#[test]
fn init_creates_vault() {
    let meta = SshKeyVault::init("test_pass", &None).unwrap();
    let existing = Some(meta);
    assert!(SshKeyVault::is_initialized(&existing));
    let meta = existing.unwrap();
    assert_eq!(meta.version, 1);
    assert!(meta.keys.is_empty());
}

#[test]
fn init_twice_fails() {
    let meta = SshKeyVault::init("test_pass", &None).unwrap();
    let result = SshKeyVault::init("test_pass", &Some(meta));
    assert!(matches!(result, Err(VaultError::AlreadyInitialized)));
}

#[test]
fn unlock_correct_passphrase() {
    let meta = SshKeyVault::init("my_pass", &None).unwrap();
    let session = SshKeyVault::unlock_checked("my_pass", &meta).unwrap();
    assert!(session.is_ok());
}

#[test]
fn unlock_wrong_passphrase() {
    let meta = SshKeyVault::init("correct", &None).unwrap();
    let result = SshKeyVault::unlock_checked("wrong", &meta).unwrap();
    assert!(result.is_err());
}

#[test]
fn generate_ed25519_key() {
    let (mut meta, session) = open("pass");
    let (item, file) = SshKeyVault::generate_key(
        &session,
        GenerateKeyInput {
            name: "Test Key".into(),
            algorithm: KeyAlgorithm::Ed25519,
            comment: Some("test@host".into()),
            export_policy: None,
            allowed_hosts: Vec::new(),
        },
        &mut meta,
    )
    .unwrap();

    assert_eq!(item.name, "Test Key");
    assert_eq!(item.algorithm, KeyAlgorithm::Ed25519);
    assert!(item.fingerprint.starts_with("SHA256:"));
    assert!(item.public_key_openssh.starts_with("ssh-ed25519 "));
    assert!(item.public_key_openssh.contains("test@host"));
    assert_eq!(item.state, KeyState::Active);
    // The sealed key file comes back for the caller to write
    assert!(!file.ciphertext.is_empty());
    assert_eq!(meta.keys.len(), 1);
}

#[test]
fn list_keys_returns_all() {
    let (mut meta, session) = open("pass");
    gen(&session, &mut meta, "Key A", None);
    gen(&session, &mut meta, "Key B", None);
    let keys = SshKeyVault::list_keys(&meta);
    assert_eq!(keys.len(), 2);
}

#[test]
fn get_key_returns_correct() {
    let (mut meta, session) = open("pass");
    let (created, _) = gen(&session, &mut meta, "My Key", None);
    let fetched = SshKeyVault::get_key(&meta, &created.id).unwrap();
    assert_eq!(fetched.id, created.id);
    assert_eq!(fetched.name, "My Key");
}

#[test]
fn delete_key_removes_from_list_and_file() {
    let (mut meta, session) = open("pass");
    let (item, _) = gen(&session, &mut meta, "Temp", None);
    assert_eq!(SshKeyVault::list_keys(&meta).len(), 1);
    SshKeyVault::delete_key(&session, &mut meta, &item.id).unwrap();
    let keys = SshKeyVault::list_keys(&meta);
    assert_eq!(keys.len(), 0);
    assert!(matches!(SshKeyVault::get_key(&meta, &item.id), Err(VaultError::KeyNotFound(_))));
}

#[test]
fn archive_key_changes_state() {
    let (mut meta, session) = open("pass");
    let (item, _) = gen(&session, &mut meta, "Arch", None);
    assert_eq!(item.state, KeyState::Active);
    SshKeyVault::archive_key(&mut meta, &item.id).unwrap();
    let fetched = SshKeyVault::get_key(&meta, &item.id).unwrap();
    assert_eq!(fetched.state, KeyState::Archived);
}

#[test]
fn export_public_key() {
    let (mut meta, session) = open("pass");
    let (item, _) = gen(&session, &mut meta, "Pub", None);
    let pub_key = SshKeyVault::export_public_key(&meta, &item.id).unwrap();
    assert_eq!(pub_key, item.public_key_openssh);
}

#[test]
fn export_private_key_round_trip() {
    let (mut meta, session) = open("pass");
    let (item, file) = gen(&session, &mut meta, "Priv", None);
    let pem = SshKeyVault::export_private_key_checked(&session, &meta, &item.id, Some(&file))
        .unwrap()
        .unwrap();
    // Verify it parses back
    let parsed = PrivateKey::from_openssh(&pem).unwrap();
    assert_eq!(parsed.fingerprint(HashAlg::Sha256).to_string(), item.fingerprint);
}

#[test]
fn export_private_key_denied_by_policy() {
    let (mut meta, session) = open("pass");
    let (item, file) = gen(&session, &mut meta, "NoExport", Some(ExportPolicy { allow_private_export: false }));
    let result = SshKeyVault::export_private_key_checked(&session, &meta, &item.id, Some(&file)).unwrap();
    assert!(matches!(result, Err(VaultError::ExportDenied)));
}

/// A vault sealed under `passphrase` with a light key derivation (the derivation
/// with the default parameters is slow in an unoptimized build).
fn light_vault(passphrase: &str) -> VaultMeta {
    let params = KdfParams { salt: BASE64.encode(generate_salt()), memory_cost: 256, time_cost: 1, parallelism: 1 };
    let vmk = derive_key(passphrase, &params).unwrap();
    let encrypted_vek = encrypt(&generate_salt(), vmk.as_bytes()).unwrap();
    VaultMeta { version: 1, kdf_params: params, encrypted_vek, keys: Vec::new() }
}

#[test]
fn change_passphrase_works() {
    let mut meta = light_vault("old_pass");

    // Generate a key with old passphrase
    let session = SshKeyVault::unlock_checked("old_pass", &meta).unwrap().unwrap();
    let (item, file) = gen(&session, &mut meta, "Change", None);
    drop(session);

    SshKeyVault::change_passphrase_checked("old_pass", "new_pass", &mut meta).unwrap().unwrap();

    // Old passphrase should fail
    assert!(SshKeyVault::unlock_checked("old_pass", &meta).unwrap().is_err());

    // New passphrase should work and decrypt existing keys
    let new_session = SshKeyVault::unlock_checked("new_pass", &meta).unwrap().unwrap();
    let pem = SshKeyVault::export_private_key_checked(&new_session, &meta, &item.id, Some(&file))
        .unwrap()
        .unwrap();
    assert!(pem.contains("OPENSSH PRIVATE KEY"));
}

#[test]
fn update_key_metadata() {
    let (mut meta, session) = open("pass");
    let (item, _) = gen(&session, &mut meta, "Original", None);
    let updated = SshKeyVault::update_key(
        &mut meta,
        &item.id,
        UpdateKeyInput {
            name: Some("Renamed".into()),
            comment: Some("new comment".into()),
            export_policy: None,
            allowed_hosts: None,
        },
    )
    .unwrap();
    assert_eq!(updated.name, "Renamed");
    assert_eq!(updated.comment, "new comment");
    assert!(updated.updated_at > item.updated_at);
}

#[test]
fn duplicate_name_rejected() {
    let (mut meta, session) = open("pass");
    gen(&session, &mut meta, "Same Name", None);
    let result = SshKeyVault::generate_key(
        &session,
        GenerateKeyInput {
            name: "Same Name".into(),
            algorithm: KeyAlgorithm::Ed25519,
            comment: None,
            export_policy: None,
            allowed_hosts: Vec::new(),
        },
        &mut meta,
    );
    assert!(matches!(result, Err(VaultError::DuplicateKeyName(_))));
}

#[test]
fn vault_error_messages() {
    assert_eq!(VaultError::DuplicateKeyName("k".into()).message(), "Duplicate key name: k");
    assert_eq!(VaultError::ExportDenied.message(), "Export denied: key policy forbids private export");
    assert_eq!(
        VaultError::Crypto(maze_ssh::crypto::CryptoError::DecryptionError("bad".into())).message(),
        "Crypto error: Decryption error: bad"
    );
}

#[test]
fn unlock_after_init_opens_same_key() {
    // What a session seals, a later session of the same passphrase opens.
    let (mut meta, session) = open("roundtrip");
    let (item, file) = gen(&session, &mut meta, "K", None);
    drop(session);
    let again = SshKeyVault::unlock_checked("roundtrip", &meta).unwrap().unwrap();
    let pem = SshKeyVault::export_private_key_checked(&again, &meta, &item.id, Some(&file)).unwrap().unwrap();
    assert!(pem.contains("OPENSSH PRIVATE KEY"));
}
