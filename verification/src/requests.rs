//! What the UI sends to and gets from the vault: requests, turned into the vault's
//! inputs, and the vault's state.
use vstd::prelude::*;

use crate::vault::{ExportPolicy, GenerateKeyInput, ImportKeyInput, KeyAlgorithm, UpdateKeyInput, VaultMeta};

verus! {

/// The vault's state as the UI sees it.
#[derive(Debug, Clone, Copy, PartialEq, Eq, Structural)]
pub struct VaultStateResponse {
    pub initialized: bool,
    pub unlocked: bool,
    pub key_count: usize,
}

/// The vault's state: its key count comes from the metadata, when the vault is
/// initialized and the metadata could be read; otherwise it is zero.
pub fn vault_get_state(initialized: bool, unlocked: bool, meta: Option<&VaultMeta>) -> (r: VaultStateResponse)
    ensures
        r.initialized == initialized,
        r.unlocked == unlocked,
        r.key_count == (match meta {
            Some(m) => if initialized {
                m.keys@.len()
            } else {
                0
            },
            None => 0,
        }),
{
    let key_count = if initialized {
        match meta {
            Some(m) => m.keys.len(),
            None => 0,
        }
    } else {
        0
    };
    VaultStateResponse { initialized, unlocked, key_count }
}

/// The export policy a request asks for, if it names one.
pub open spec fn requested_policy(allow: Option<bool>) -> Option<ExportPolicy> {
    match allow {
        Some(a) => Some(ExportPolicy { allow_private_export: a }),
        None => None,
    }
}

fn policy_of(allow: Option<bool>) -> (r: Option<ExportPolicy>)
    ensures
        r == requested_policy(allow),
{
    match allow {
        Some(a) => Some(ExportPolicy { allow_private_export: a }),
        None => None,
    }
}

/// A request to generate a key.
#[derive(Debug, Clone)]
pub struct GenerateKeyRequest {
    pub name: String,
    pub algorithm: KeyAlgorithm,
    pub comment: Option<String>,
    pub allow_private_export: Option<bool>,
    pub allowed_hosts: Vec<String>,
}

impl GenerateKeyRequest {
    /// The vault input for the request. The allowed hosts are not passed on.
    pub fn into_input(self) -> (r: GenerateKeyInput)
        ensures
            r.name == self.name,
            r.algorithm == self.algorithm,
            r.comment == self.comment,
            r.export_policy == requested_policy(self.allow_private_export),
            r.allowed_hosts@.len() == 0,
    {
        GenerateKeyInput {
            name: self.name,
            algorithm: self.algorithm,
            comment: self.comment,
            export_policy: policy_of(self.allow_private_export),
            allowed_hosts: Vec::new(),
        }
    }
}

/// A request to import a key.
#[derive(Debug, Clone)]
pub struct ImportKeyRequest {
    pub name: String,
    pub private_key_pem: String,
    pub comment: Option<String>,
    pub source_passphrase: Option<String>,
    pub allow_private_export: Option<bool>,
}

impl ImportKeyRequest {
    /// The vault input for the request.
    pub fn into_input(self) -> (r: ImportKeyInput)
        ensures
            r.private_key_pem == self.private_key_pem,
            r.name == self.name,
            r.comment == self.comment,
            r.export_policy == requested_policy(self.allow_private_export),
            r.source_passphrase == self.source_passphrase,
    {
        ImportKeyInput {
            private_key_pem: self.private_key_pem,
            name: self.name,
            comment: self.comment,
            export_policy: policy_of(self.allow_private_export),
            source_passphrase: self.source_passphrase,
        }
    }
}

/// A request to change a key's name, comment or export policy.
#[derive(Debug, Clone)]
pub struct UpdateKeyRequest {
    pub name: Option<String>,
    pub comment: Option<String>,
    pub allow_private_export: Option<bool>,
}

impl UpdateKeyRequest {
    /// The vault input for the request; the allowed hosts stay as they are.
    pub fn into_input(self) -> (r: UpdateKeyInput)
        ensures
            r.name == self.name,
            r.comment == self.comment,
            r.export_policy == requested_policy(self.allow_private_export),
            r.allowed_hosts is None,
    {
        UpdateKeyInput {
            name: self.name,
            comment: self.comment,
            export_policy: policy_of(self.allow_private_export),
            allowed_hosts: None,
        }
    }
}

} // verus!
