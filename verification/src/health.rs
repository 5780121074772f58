//! Whether each agent provider is available on Windows, read from the answers of
//! the PowerShell probes.
use vstd::prelude::*;

use crate::bundler::ascii_lowercase;
use crate::provider::{BridgeProvider, ProviderModel, ProviderStatus};
use crate::text::{chars_of, replace_all_str, replace_all, trim, trim_chars};

verus! {

/// `str::eq_ignore_ascii_case`.
pub open spec fn eq_ignore_ascii_case(a: Seq<char>, b: Seq<char>) -> bool {
    ascii_lowercase(a) == ascii_lowercase(b)
}

/// Whether a probe answered `expected` (ignoring surrounding whitespace and ASCII
/// case); a probe that could not run answers nothing.
pub open spec fn answered(stdout: Option<Seq<char>>, expected: Seq<char>) -> bool {
    match stdout {
        Some(s) => eq_ignore_ascii_case(trim(s), expected),
        None => false,
    }
}

/// `str::eq_ignore_ascii_case`.
pub fn eq_ignore_ascii_case_str(a: &str, b: &str) -> (r: bool)
    ensures
        r == eq_ignore_ascii_case(a@, b@),
{
    let t = chars_of(a);
    let e = chars_of(b);
    if t.len() != e.len() {
        assert(ascii_lowercase(t@).len() != ascii_lowercase(e@).len());
        return false;
    }
    let mut i: usize = 0;
    while i < t.len()
        invariant
            i <= t@.len(),
            t@.len() == e@.len(),
            t@ == a@,
            e@ == b@,
            forall|k: int| 0 <= k < i ==> crate::bundler::ascii_lower_char(t@[k]) == crate::bundler::ascii_lower_char(e@[k]),
        decreases t@.len() - i,
    {
        let x = t[i];
        let y = e[i];
        let lx = if 'A' <= x && x <= 'Z' { ((x as u8) + 32) as char } else { x };
        let ly = if 'A' <= y && y <= 'Z' { ((y as u8) + 32) as char } else { y };
        assert(lx == crate::bundler::ascii_lower_char(x)) by {
            if 'A' <= x <= 'Z' {
                assert(((x as u8) + 32) as char == ((x as u32) + 32) as char);
            }
        }
        assert(ly == crate::bundler::ascii_lower_char(y)) by {
            if 'A' <= y <= 'Z' {
                assert(((y as u8) + 32) as char == ((y as u32) + 32) as char);
            }
        }
        if lx != ly {
            assert(ascii_lowercase(t@)[i as int] != ascii_lowercase(e@)[i as int]);
            return false;
        }
        i = i + 1;
    }
    assert(ascii_lowercase(t@) =~= ascii_lowercase(e@));
    true
}

fn answers(stdout: &Option<String>, expected: &str) -> (r: bool)
    ensures
        r == answered(crate::bridge::opt_view(*stdout), expected@),
{
    match stdout {
        Some(s) => {
            let t = trim_chars(chars_of(s.as_str()).as_slice());
            let e = chars_of(expected);
            if t.len() != e.len() {
                assert(ascii_lowercase(t@).len() != ascii_lowercase(e@).len());
                return false;
            }
            let mut i: usize = 0;
            while i < t.len()
                invariant
                    i <= t@.len(),
                    t@.len() == e@.len(),
                    t@ == trim(s@),
                    e@ == expected@,
                    crate::bridge::opt_view(*stdout) == Some(s@),
                    forall|k: int| 0 <= k < i ==> crate::bundler::ascii_lower_char(t@[k]) == crate::bundler::ascii_lower_char(e@[k]),
                decreases t@.len() - i,
            {
                let a = t[i];
                let b = e[i];
                let la = if 'A' <= a && a <= 'Z' { ((a as u8) + 32) as char } else { a };
                let lb = if 'A' <= b && b <= 'Z' { ((b as u8) + 32) as char } else { b };
                assert(la == crate::bundler::ascii_lower_char(a)) by {
                    if 'A' <= a <= 'Z' {
                        assert(((a as u8) + 32) as char == ((a as u32) + 32) as char);
                    }
                }
                assert(lb == crate::bundler::ascii_lower_char(b)) by {
                    if 'A' <= b <= 'Z' {
                        assert(((b as u8) + 32) as char == ((b as u32) + 32) as char);
                    }
                }
                if la != lb {
                    assert(ascii_lowercase(t@)[i as int] != ascii_lowercase(e@)[i as int]);
                    return false;
                }
                i = i + 1;
            }
            assert(ascii_lowercase(t@) =~= ascii_lowercase(e@));
            true
        },
        None => false,
    }
}

/// The PowerShell path of a pipe given as `//./pipe/<name>`.
pub open spec fn powershell_pipe_path(p: Seq<char>) -> Seq<char> {
    replace_all(p, "//./pipe/"@, "\\\\.\\pipe\\"@)
}

/// The PowerShell commands whose output decides a provider's availability, in order.
pub fn provider_probe_commands(provider: &BridgeProvider) -> (r: Vec<String>)
    ensures
        match provider@ {
            ProviderModel::WindowsOpenSsh => r@.len() == 1,
            ProviderModel::OnePassword => r@.len() == 2,
            ProviderModel::Pageant => r@.len() == 1,
            ProviderModel::Custom { pipe_path } => if pipe_path.len() == 0 {
                r@.len() == 0
            } else {
                r@.len() == 1 && r@[0]@ == "Test-Path '"@ + powershell_pipe_path(pipe_path) + "'"@
            },
        },
{
    let mut r: Vec<String> = Vec::new();
    match provider {
        BridgeProvider::WindowsOpenSsh => {
            r.push("(Get-Service ssh-agent).Status".to_string());
        },
        BridgeProvider::OnePassword => {
            r.push("$null -ne (Get-Process '1Password' -ErrorAction SilentlyContinue)".to_string());
            r.push("Test-Path \\\\.\\pipe\\op-ssh-sign-pipe".to_string());
        },
        BridgeProvider::Pageant => {
            r.push(
                "\nAdd-Type -TypeDefinition @\"\nusing System;\nusing System.Runtime.InteropServices;\npublic class PageantCheck {\n    [DllImport(\"user32.dll\", SetLastError = true, CharSet = CharSet.Unicode)]\n    public static extern IntPtr FindWindow(string lpClassName, string lpWindowName);\n}\n\"@\n$hwnd = [PageantCheck]::FindWindow(\"Pageant\", \"Pageant\")\n$hwnd -ne [IntPtr]::Zero\n".to_string(),
            );
        },
        BridgeProvider::Custom { pipe_path } => {
            if !pipe_path.as_str().is_empty() {
                let mut c = "Test-Path '".to_string();
                let p = replace_all_str(pipe_path.as_str(), "//./pipe/", "\\\\.\\pipe\\");
                c.append(p.as_str());
                c.append("'");
                r.push(c);
            }
        },
    }
    r
}

/// The standard output of the `k`-th probe, when it ran.
pub open spec fn probe_out(outs: Seq<Option<String>>, k: int) -> Option<Seq<char>> {
    if k < outs.len() {
        crate::bridge::opt_view(outs[k])
    } else {
        None
    }
}

fn nth(outs: &[Option<String>], k: usize) -> (r: Option<String>)
    ensures
        crate::bridge::opt_view(r) == probe_out(outs@, k as int),
{
    if k < outs.len() {
        match &outs[k] {
            Some(s) => Some(s.clone()),
            None => None,
        }
    } else {
        None
    }
}

/// What the status of provider `p` says, given its probes' outputs.
pub open spec fn status_fits(st: ProviderStatus, p: ProviderModel, outputs: Seq<Option<String>>) -> bool {
    &&& st.provider@ == p
    &&& match p {
        ProviderModel::WindowsOpenSsh => {
            &&& st.display_name@ == "Windows OpenSSH"@
            &&& st.available == answered(probe_out(outputs, 0), "Running"@)
            &&& crate::bridge::opt_view(st.error) == (if st.available {
                None
            } else {
                Some("ssh-agent service not running"@)
            })
        },
        ProviderModel::OnePassword => {
            let running = answered(probe_out(outputs, 0), "True"@);
            let pipe = answered(probe_out(outputs, 1), "True"@);
            &&& st.display_name@ == "1Password"@
            &&& st.available == (running && pipe)
            &&& crate::bridge::opt_view(st.error) == (if !running {
                Some("1Password is not running"@)
            } else if !pipe {
                Some("1Password SSH agent pipe not found — enable 'Use the SSH agent' in 1Password settings"@)
            } else {
                None
            })
        },
        ProviderModel::Pageant => {
            &&& st.display_name@ == "Pageant"@
            &&& st.available == answered(probe_out(outputs, 0), "True"@)
            &&& crate::bridge::opt_view(st.error) == (if st.available {
                None
            } else {
                Some("No Pageant-compatible agent detected (PuTTY, KeeAgent, or GPG4Win)"@)
            })
        },
        ProviderModel::Custom { pipe_path } => {
            &&& st.display_name@ == "Custom"@
            &&& st.available == (pipe_path.len() > 0 && answered(probe_out(outputs, 0), "True"@))
            &&& crate::bridge::opt_view(st.error) == (if pipe_path.len() == 0 {
                Some("No pipe path configured"@)
            } else if st.available {
                None
            } else {
                Some("Pipe not found: "@ + pipe_path)
            })
        },
    }
}

/// The availability of a provider from the standard output of its probes (in the
/// order `provider_probe_commands` gives; `None` for a probe that failed to run).
pub fn check_provider(provider: &BridgeProvider, outputs: &[Option<String>]) -> (st: ProviderStatus)
    ensures
        status_fits(st, provider@, outputs@),
{
    match provider {
        BridgeProvider::WindowsOpenSsh => {
            let available = answers(&nth(outputs, 0), "Running");
            ProviderStatus {
                provider: BridgeProvider::WindowsOpenSsh,
                display_name: "Windows OpenSSH".to_string(),
                available,
                error: if available {
                    None
                } else {
                    Some("ssh-agent service not running".to_string())
                },
            }
        },
        BridgeProvider::OnePassword => {
            let running = answers(&nth(outputs, 0), "True");
            let pipe = answers(&nth(outputs, 1), "True");
            let error = if !running {
                Some("1Password is not running".to_string())
            } else if !pipe {
                Some("1Password SSH agent pipe not found — enable 'Use the SSH agent' in 1Password settings".to_string())
            } else {
                None
            };
            ProviderStatus {
                provider: BridgeProvider::OnePassword,
                display_name: "1Password".to_string(),
                available: running && pipe,
                error,
            }
        },
        BridgeProvider::Pageant => {
            let available = answers(&nth(outputs, 0), "True");
            ProviderStatus {
                provider: BridgeProvider::Pageant,
                display_name: "Pageant".to_string(),
                available,
                error: if available {
                    None
                } else {
                    Some("No Pageant-compatible agent detected (PuTTY, KeeAgent, or GPG4Win)".to_string())
                },
            }
        },
        BridgeProvider::Custom { pipe_path } => {
            if pipe_path.as_str().is_empty() {
                return ProviderStatus {
                    provider: BridgeProvider::Custom { pipe_path: pipe_path.clone() },
                    display_name: "Custom".to_string(),
                    available: false,
                    error: Some("No pipe path configured".to_string()),
                };
            }
            let available = answers(&nth(outputs, 0), "True");
            let error = if available {
                None
            } else {
                let mut m = "Pipe not found: ".to_string();
                m.append(pipe_path.as_str());
                Some(m)
            };
            ProviderStatus {
                provider: BridgeProvider::Custom { pipe_path: pipe_path.clone() },
                display_name: "Custom".to_string(),
                available,
                error,
            }
        },
    }
}

/// The availability of the built-in providers (Windows OpenSSH, 1Password,
/// Pageant), from their probes' outputs in that order.
pub fn check_all_providers(openssh: &[Option<String>], onepassword: &[Option<String>], pageant: &[Option<String>]) -> (r: Vec<ProviderStatus>)
    ensures
        r@.len() == 3,
        status_fits(r@[0], ProviderModel::WindowsOpenSsh, openssh@),
        status_fits(r@[1], ProviderModel::OnePassword, onepassword@),
        status_fits(r@[2], ProviderModel::Pageant, pageant@),
{
    let mut r: Vec<ProviderStatus> = Vec::new();
    r.push(check_provider(&BridgeProvider::WindowsOpenSsh, openssh));
    r.push(check_provider(&BridgeProvider::OnePassword, onepassword));
    r.push(check_provider(&BridgeProvider::Pageant, pageant));
    r
}

} // verus!
