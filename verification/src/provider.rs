//! SSH agent providers that can be bridged into WSL, and the relay binaries they need.
use vstd::prelude::*;

use crate::text::{chars_of, push_char};

verus! {

/// Which SSH agent provider to bridge into WSL.
#[derive(Debug, PartialEq, Eq)]
pub enum BridgeProvider {
    /// Windows OpenSSH Agent — named pipe `\\.\pipe\openssh-ssh-agent`
    WindowsOpenSsh,
    /// 1Password SSH Agent — named pipe `\\.\pipe\op-ssh-sign-pipe`
    OnePassword,
    /// Pageant-compatible agent (PuTTY, KeeAgent, GPG4Win)
    Pageant,
    /// User-defined provider with a custom Windows named pipe path
    Custom { pipe_path: String },
}

/// Mathematical model of a provider.
pub enum ProviderModel {
    WindowsOpenSsh,
    OnePassword,
    Pageant,
    Custom { pipe_path: Seq<char> },
}

impl View for BridgeProvider {
    type V = ProviderModel;

    open spec fn view(&self) -> ProviderModel {
        match self {
            BridgeProvider::WindowsOpenSsh => ProviderModel::WindowsOpenSsh,
            BridgeProvider::OnePassword => ProviderModel::OnePassword,
            BridgeProvider::Pageant => ProviderModel::Pageant,
            BridgeProvider::Custom { pipe_path } => ProviderModel::Custom { pipe_path: pipe_path@ },
        }
    }
}

/// Which external binary relays the agent protocol into WSL.
#[derive(Debug, Clone, Copy, PartialEq, Eq, Structural)]
pub enum RelayBinary {
    /// npiperelay.exe — bridges Windows named pipes to stdio
    Npiperelay,
    /// wsl-ssh-pageant.exe — converts the Pageant protocol to a Unix socket
    WslSshPageant,
}

pub open spec fn provider_name(p: ProviderModel) -> Seq<char> {
    match p {
        ProviderModel::WindowsOpenSsh => "Windows OpenSSH"@,
        ProviderModel::OnePassword => "1Password"@,
        ProviderModel::Pageant => "Pageant"@,
        ProviderModel::Custom { .. } => "Custom"@,
    }
}

pub open spec fn provider_pipe(p: ProviderModel) -> Option<Seq<char>> {
    match p {
        ProviderModel::WindowsOpenSsh => Some("//./pipe/openssh-ssh-agent"@),
        ProviderModel::OnePassword => Some("//./pipe/op-ssh-sign-pipe"@),
        ProviderModel::Pageant => None,
        ProviderModel::Custom { pipe_path } => if pipe_path.len() == 0 {
            None
        } else {
            Some(pipe_path)
        },
    }
}

pub open spec fn provider_relay(p: ProviderModel) -> RelayBinary {
    match p {
        ProviderModel::Pageant => RelayBinary::WslSshPageant,
        _ => RelayBinary::Npiperelay,
    }
}

pub open spec fn provider_needs_socat(p: ProviderModel) -> bool {
    !(p is Pageant)
}

pub open spec fn provider_score(p: ProviderModel) -> u8 {
    match p {
        ProviderModel::OnePassword => 3,
        ProviderModel::WindowsOpenSsh => 2,
        ProviderModel::Pageant => 1,
        ProviderModel::Custom { .. } => 0,
    }
}

pub open spec fn opt_string_view(o: Option<String>) -> Option<Seq<char>> {
    match o {
        Some(s) => Some(s@),
        None => None,
    }
}

impl Default for BridgeProvider {
    /// Windows OpenSSH, for configurations written before providers existed.
    fn default() -> (p: Self)
        ensures
            p@ == ProviderModel::WindowsOpenSsh,
    {
        BridgeProvider::WindowsOpenSsh
    }
}

impl BridgeProvider {
    /// A provider equal to this one.
    pub fn duplicate(&self) -> (r: Self)
        ensures
            r@ == self@,
    {
        match self {
            BridgeProvider::WindowsOpenSsh => BridgeProvider::WindowsOpenSsh,
            BridgeProvider::OnePassword => BridgeProvider::OnePassword,
            BridgeProvider::Pageant => BridgeProvider::Pageant,
            BridgeProvider::Custom { pipe_path } => BridgeProvider::Custom { pipe_path: pipe_path.clone() },
        }
    }

    /// Whether two providers are the same.
    pub fn same_as(&self, other: &Self) -> (r: bool)
        ensures
            r == (self@ == other@),
    {
        match (self, other) {
            (BridgeProvider::WindowsOpenSsh, BridgeProvider::WindowsOpenSsh) => true,
            (BridgeProvider::OnePassword, BridgeProvider::OnePassword) => true,
            (BridgeProvider::Pageant, BridgeProvider::Pageant) => true,
            (BridgeProvider::Custom { pipe_path: a }, BridgeProvider::Custom { pipe_path: b }) => {
                let same = a.clone() == b.clone();
                same
            },
            _ => false,
        }
    }

    /// Human-readable display name.
    pub fn display_name(&self) -> (r: &'static str)
        ensures
            r@ == provider_name(self@),
    {
        match self {
            BridgeProvider::WindowsOpenSsh => "Windows OpenSSH",
            BridgeProvider::OnePassword => "1Password",
            BridgeProvider::Pageant => "Pageant",
            BridgeProvider::Custom { .. } => "Custom",
        }
    }

    /// The Windows named pipe this provider uses (`None` for Pageant, and for a
    /// custom provider without a path).
    pub fn named_pipe(&self) -> (r: Option<String>)
        ensures
            opt_string_view(r) == provider_pipe(self@),
    {
        match self {
            BridgeProvider::WindowsOpenSsh => Some("//./pipe/openssh-ssh-agent".to_string()),
            BridgeProvider::OnePassword => Some("//./pipe/op-ssh-sign-pipe".to_string()),
            BridgeProvider::Pageant => None,
            BridgeProvider::Custom { pipe_path } => {
                if pipe_path.as_str().is_empty() {
                    None
                } else {
                    Some(pipe_path.clone())
                }
            },
        }
    }

    /// Which relay binary this provider needs.
    pub fn relay_binary(&self) -> (r: RelayBinary)
        ensures
            r == provider_relay(self@),
    {
        match self {
            BridgeProvider::Pageant => RelayBinary::WslSshPageant,
            _ => RelayBinary::Npiperelay,
        }
    }

    /// Whether this provider requires socat inside WSL.
    pub fn needs_socat(&self) -> (r: bool)
        ensures
            r == provider_needs_socat(self@),
    {
        match self {
            BridgeProvider::Pageant => false,
            _ => true,
        }
    }

    /// Description for the systemd service unit.
    pub fn service_description(&self) -> (r: String)
        ensures
            r@ == "Maze SSH Agent Relay ("@ + provider_name(self@) + " -> WSL)"@,
    {
        let mut s = String::new();
        s.append("Maze SSH Agent Relay (");
        s.append(self.display_name());
        s.append(" -> WSL)");
        s
    }

    /// Score for auto-recommendation (higher is better).
    pub fn recommendation_score(&self) -> (r: u8)
        ensures
            r == provider_score(self@),
    {
        match self {
            BridgeProvider::OnePassword => 3,
            BridgeProvider::WindowsOpenSsh => 2,
            BridgeProvider::Pageant => 1,
            BridgeProvider::Custom { .. } => 0,
        }
    }
}

pub open spec fn binary_filename(b: RelayBinary) -> Seq<char> {
    match b {
        RelayBinary::Npiperelay => "npiperelay.exe"@,
        RelayBinary::WslSshPageant => "wsl-ssh-pageant.exe"@,
    }
}

pub open spec fn binary_version_key(b: RelayBinary) -> Seq<char> {
    match b {
        RelayBinary::Npiperelay => "npiperelay"@,
        RelayBinary::WslSshPageant => "wsl_ssh_pageant"@,
    }
}

impl RelayBinary {
    pub fn filename(&self) -> (r: &'static str)
        ensures
            r@ == binary_filename(*self),
    {
        match self {
            RelayBinary::Npiperelay => "npiperelay.exe",
            RelayBinary::WslSshPageant => "wsl-ssh-pageant.exe",
        }
    }

    /// All known relay binaries.
    pub fn all() -> (r: Vec<RelayBinary>)
        ensures
            r@ == seq![RelayBinary::Npiperelay, RelayBinary::WslSshPageant],
    {
        let mut v = Vec::new();
        v.push(RelayBinary::Npiperelay);
        v.push(RelayBinary::WslSshPageant);
        v
    }

    /// GitHub repository (owner/name) the binary is released from.
    pub fn github_repo(&self) -> (r: &'static str)
        ensures
            r@ == (match *self {
                RelayBinary::Npiperelay => "jstarks/npiperelay"@,
                RelayBinary::WslSshPageant => "benpye/wsl-ssh-pageant"@,
            }),
    {
        match self {
            RelayBinary::Npiperelay => "jstarks/npiperelay",
            RelayBinary::WslSshPageant => "benpye/wsl-ssh-pageant",
        }
    }

    /// Exact filename of the release asset.
    pub fn asset_name(&self) -> (r: &'static str)
        ensures
            r@ == binary_filename(*self),
    {
        self.filename()
    }

    /// Key used in the installed-versions record.
    pub fn version_key(&self) -> (r: &'static str)
        ensures
            r@ == binary_version_key(*self),
    {
        match self {
            RelayBinary::Npiperelay => "npiperelay",
            RelayBinary::WslSshPageant => "wsl_ssh_pageant",
        }
    }

    /// Parse from a version key (the hyphenated spelling is accepted too).
    pub fn from_key(key: &str) -> (r: Option<Self>)
        ensures
            r == (if key@ == "npiperelay"@ {
                Some(RelayBinary::Npiperelay)
            } else if key@ == "wsl-ssh-pageant"@ || key@ == "wsl_ssh_pageant"@ {
                Some(RelayBinary::WslSshPageant)
            } else {
                None::<RelayBinary>
            }),
    {
        let k = key.to_string();
        if k == "npiperelay".to_string() {
            Some(RelayBinary::Npiperelay)
        } else if k == "wsl-ssh-pageant".to_string() || k == "wsl_ssh_pageant".to_string() {
            Some(RelayBinary::WslSshPageant)
        } else {
            None
        }
    }
}

/// Installed version record of the relay binaries.
#[derive(Debug, Clone, Default)]
pub struct BinaryVersion {
    pub npiperelay: Option<String>,
    pub wsl_ssh_pageant: Option<String>,
}

/// Progress of a binary download.
#[derive(Debug, Clone)]
pub struct DownloadProgress {
    pub binary: String,
    pub percent: u8,
    pub status: String,
}

/// Availability of a provider on the Windows side.
#[derive(Debug)]
pub struct ProviderStatus {
    pub provider: BridgeProvider,
    pub display_name: String,
    pub available: bool,
    pub error: Option<String>,
}

/// Installation status of a relay binary.
#[derive(Debug, Clone)]
pub struct RelayBinaryStatus {
    pub binary: RelayBinary,
    pub installed: bool,
    pub path: String,
}

/// The provider recommended among `statuses`: an available one with the highest
/// score, the first such in order; `None` if none is available.
pub open spec fn recommended(statuses: Seq<ProviderStatus>) -> Option<ProviderModel> {
    if exists|i: int| 0 <= i < statuses.len() && statuses[i].available {
        let i = choose|i: int|
            0 <= i < statuses.len() && statuses[i].available && (forall|j: int|
                0 <= j < statuses.len() && statuses[j].available ==> provider_score(
                    statuses[j].provider@,
                ) <= provider_score(statuses[i].provider@)) && (forall|j: int|
                0 <= j < i && statuses[j].available ==> provider_score(statuses[j].provider@)
                    < provider_score(statuses[i].provider@));
        Some(statuses[i].provider@)
    } else {
        None
    }
}

/// Score and return the best available provider: availability is required,
/// then the highest score wins, earlier entries first among equals.
pub fn recommend_provider(statuses: &[ProviderStatus]) -> (r: Option<BridgeProvider>)
    ensures
        r is None <==> forall|i: int| 0 <= i < statuses@.len() ==> !statuses@[i].available,
        r matches Some(p) ==> exists|i: int|
            0 <= i < statuses@.len() && statuses@[i].available && statuses@[i].provider@ == p@
                && (forall|j: int|
                0 <= j < statuses@.len() && statuses@[j].available ==> provider_score(
                    statuses@[j].provider@,
                ) <= provider_score(p@)) && (forall|j: int|
                0 <= j < i && statuses@[j].available ==> provider_score(statuses@[j].provider@)
                    < provider_score(p@)),
{
    let mut best: Option<usize> = None;
    let mut i: usize = 0;
    while i < statuses.len()
        invariant
            i <= statuses@.len(),
            best is None <==> forall|j: int| 0 <= j < i ==> !statuses@[j].available,
            best matches Some(b) ==> b < i && statuses@[b as int].available && (forall|j: int|
                0 <= j < i && statuses@[j].available ==> provider_score(statuses@[j].provider@)
                    <= provider_score(statuses@[b as int].provider@)) && (forall|j: int|
                0 <= j < b && statuses@[j].available ==> provider_score(statuses@[j].provider@)
                    < provider_score(statuses@[b as int].provider@)),
        decreases statuses@.len() - i,
    {
        if statuses[i].available {
            match best {
                None => {
                    best = Some(i);
                },
                Some(b) => {
                    if statuses[i].provider.recommendation_score()
                        > statuses[b].provider.recommendation_score() {
                        best = Some(i);
                    }
                },
            }
        }
        i = i + 1;
    }
    match best {
        Some(b) => Some(statuses[b].provider.duplicate()),
        None => None,
    }
}

/// A Windows named pipe that may host an SSH agent.
#[derive(Debug, Clone)]
pub struct NamedPipeEntry {
    /// Full Windows path, e.g. `\\.\pipe\openssh-ssh-agent`
    pub path: String,
    /// Bare pipe name, e.g. `openssh-ssh-agent`
    pub display: String,
}

/// `dir` and `part` joined as a Windows path: no separator is added when `dir`
/// is empty or already ends in one.
pub open spec fn win_joined(dir: Seq<char>, part: Seq<char>) -> Seq<char> {
    if dir.len() == 0 {
        part
    } else if dir.last() == '\\' || dir.last() == '/' {
        dir + part
    } else {
        dir + seq!['\\'] + part
    }
}

fn win_join(dir: &str, part: &str) -> (r: String)
    ensures
        r@ == win_joined(dir@, part@),
{
    let cs = chars_of(dir);
    let mut r = dir.to_string();
    if cs.len() > 0 {
        let last = cs[cs.len() - 1];
        if last != '\\' && last != '/' {
            push_char(&mut r, '\\');
        }
    }
    r.append(part);
    r
}

/// Where a relay binary is kept: `bin\<filename>` under the app's data
/// directory `data_dir`. The relay binaries are Windows executables, so the path
/// is a Windows path.
pub fn relay_binary_path(data_dir: &str, binary: RelayBinary) -> (r: String)
    ensures
        r@ == win_joined(win_joined(data_dir@, "bin"@), binary_filename(binary)),
{
    let bin = win_join(data_dir, "bin");
    proof {
        reveal_strlit("bin");
    }
    win_join(bin.as_str(), binary.filename())
}

/// Where `npiperelay.exe` is kept under the data directory `data_dir`.
pub fn npiperelay_path(data_dir: &str) -> (r: String)
    ensures
        r@ == win_joined(win_joined(data_dir@, "bin"@), "npiperelay.exe"@),
{
    relay_binary_path(data_dir, RelayBinary::Npiperelay)
}

} // verus!

