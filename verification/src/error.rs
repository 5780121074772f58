//! The application's error type.
use vstd::prelude::*;

verus! {

/// Errors of the profile, bridge, security and WSL services. Paths and the texts of
/// I/O and JSON errors are carried as strings.
#[derive(Debug, Clone, PartialEq, Eq)]
pub enum MazeSshError {
    ProfileNotFound(String),
    KeyNotFound(String),
    KeyringError(String),
    ConfigError(String),
    IoError(String),
    SerdeError(String),
    ConnectionFailed(String),
    RepoMappingNotFound(String),
    NotAGitRepo(String),
    GitConfigError(String),
    DuplicateMapping(String),
    AppLocked,
    SecurityError(String),
    PinNotSet,
    StateLockError,
    ValidationError(String),
    WslNotAvailable(String),
    WslCommandFailed(String),
    BridgeError(String),
}

/// The text an error is shown with.
pub open spec fn error_text(e: MazeSshError) -> Seq<char> {
    match e {
        MazeSshError::ProfileNotFound(s) => "Profile not found: "@ + s@,
        MazeSshError::KeyNotFound(s) => "Key file not found: "@ + s@,
        MazeSshError::KeyringError(s) => "Keyring error: "@ + s@,
        MazeSshError::ConfigError(s) => "SSH config error: "@ + s@,
        MazeSshError::IoError(s) => "IO error: "@ + s@,
        MazeSshError::SerdeError(s) => "Serialization error: "@ + s@,
        MazeSshError::ConnectionFailed(s) => "SSH connection failed: "@ + s@,
        MazeSshError::RepoMappingNotFound(s) => "Repo mapping not found: "@ + s@,
        MazeSshError::NotAGitRepo(s) => "Not a git repository: "@ + s@,
        MazeSshError::GitConfigError(s) => "Git config error: "@ + s@,
        MazeSshError::DuplicateMapping(s) => "Duplicate mapping for repo: "@ + s@,
        MazeSshError::AppLocked => "App is locked"@,
        MazeSshError::SecurityError(s) => "Security error: "@ + s@,
        MazeSshError::PinNotSet => "PIN is not configured"@,
        MazeSshError::StateLockError => "Internal state error"@,
        MazeSshError::ValidationError(s) => "Validation error: "@ + s@,
        MazeSshError::WslNotAvailable(s) => "WSL not available: "@ + s@,
        MazeSshError::WslCommandFailed(s) => "WSL command failed: "@ + s@,
        MazeSshError::BridgeError(s) => "Bridge error: "@ + s@,
    }
}

fn prefixed(p: &str, s: &String) -> (r: String)
    ensures
        r@ == p@ + s@,
{
    let mut r = p.to_string();
    r.append(s.as_str());
    r
}

impl MazeSshError {
    /// The text the error is shown with.
    pub fn message(&self) -> (r: String)
        ensures
            r@ == error_text(*self),
    {
        match self {
            MazeSshError::ProfileNotFound(s) => prefixed("Profile not found: ", s),
            MazeSshError::KeyNotFound(s) => prefixed("Key file not found: ", s),
            MazeSshError::KeyringError(s) => prefixed("Keyring error: ", s),
            MazeSshError::ConfigError(s) => prefixed("SSH config error: ", s),
            MazeSshError::IoError(s) => prefixed("IO error: ", s),
            MazeSshError::SerdeError(s) => prefixed("Serialization error: ", s),
            MazeSshError::ConnectionFailed(s) => prefixed("SSH connection failed: ", s),
            MazeSshError::RepoMappingNotFound(s) => prefixed("Repo mapping not found: ", s),
            MazeSshError::NotAGitRepo(s) => prefixed("Not a git repository: ", s),
            MazeSshError::GitConfigError(s) => prefixed("Git config error: ", s),
            MazeSshError::DuplicateMapping(s) => prefixed("Duplicate mapping for repo: ", s),
            MazeSshError::AppLocked => "App is locked".to_string(),
            MazeSshError::SecurityError(s) => prefixed("Security error: ", s),
            MazeSshError::PinNotSet => "PIN is not configured".to_string(),
            MazeSshError::StateLockError => "Internal state error".to_string(),
            MazeSshError::ValidationError(s) => prefixed("Validation error: ", s),
            MazeSshError::WslNotAvailable(s) => prefixed("WSL not available: ", s),
            MazeSshError::WslCommandFailed(s) => prefixed("WSL command failed: ", s),
            MazeSshError::BridgeError(s) => prefixed("Bridge error: ", s),
        }
    }
}

} // verus!
