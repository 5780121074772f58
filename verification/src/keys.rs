//! Key fingerprints, as `ssh-keygen -lf` prints them, and the health check of the
//! profiles' keys. Running `ssh-keygen` and looking at the key files is the
//! caller's; their results come in as plain values.
use vstd::prelude::*;

use crate::error::MazeSshError;
use crate::profile::SshProfile;
use crate::security::{ensure_unlocked, SecurityState};
use crate::text::{
    chars_of, contains_sub, decimal, parse_u32, parse_u32_chars, push_decimal, str_contains,
    string_of, to_uppercase, trim, trim_chars, uppercase,
};

verus! {

/// A key's fingerprint line, split into its parts.
#[derive(Debug, Clone)]
pub struct KeyFingerprint {
    pub bits: String,
    pub hash: String,
    pub comment: String,
    pub key_type: String,
}

/// Position of the first `c` in `s`.
pub open spec fn char_index(s: Seq<char>, c: char) -> Option<int>
    decreases s.len(),
{
    if s.len() == 0 {
        None
    } else if s[0] == c {
        Some(0)
    } else {
        match char_index(s.drop_first(), c) {
            Some(i) => Some(i + 1),
            None => None,
        }
    }
}

/// `str::splitn(n, c)` for `n >= 1`: at most `n` pieces, the last one holding the
/// rest of the text.
pub open spec fn splitn(s: Seq<char>, c: char, n: nat) -> Seq<Seq<char>>
    decreases n,
{
    if n <= 1 {
        seq![s]
    } else {
        match char_index(s, c) {
            None => seq![s],
            Some(i) => seq![s.take(i)] + splitn(s.skip(i + 1), c, (n - 1) as nat),
        }
    }
}

/// Piece `i`, or the empty text when there are fewer pieces.
pub open spec fn piece(ps: Seq<Seq<char>>, i: int) -> Seq<char> {
    if 0 <= i < ps.len() {
        ps[i]
    } else {
        Seq::empty()
    }
}

pub open spec fn is_paren(c: char) -> bool {
    c == '(' || c == ')'
}

pub open spec fn strip_parens_front(s: Seq<char>) -> Seq<char>
    decreases s.len(),
{
    if s.len() > 0 && is_paren(s[0]) {
        strip_parens_front(s.drop_first())
    } else {
        s
    }
}

pub open spec fn strip_parens_back(s: Seq<char>) -> Seq<char>
    decreases s.len(),
{
    if s.len() > 0 && is_paren(s.last()) {
        strip_parens_back(s.drop_last())
    } else {
        s
    }
}

/// `str::trim_matches` with `(` and `)`.
pub open spec fn strip_parens(s: Seq<char>) -> Seq<char> {
    strip_parens_back(strip_parens_front(s))
}

/// The parts of a fingerprint line "bits hash comment (type)", split at the first
/// three spaces; the type loses its parentheses.
pub open spec fn fingerprint_parts(line: Seq<char>) -> (Seq<char>, Seq<char>, Seq<char>, Seq<char>) {
    let ps = splitn(line, ' ', 4);
    (piece(ps, 0), piece(ps, 1), piece(ps, 2), strip_parens(piece(ps, 3)))
}

fn index_of_char(s: &[char], c: char) -> (r: Option<usize>)
    ensures
        match r {
            Some(i) => char_index(s@, c) == Some(i as int) && i < s@.len(),
            None => char_index(s@, c) is None,
        },
{
    let mut i: usize = 0;
    assert(s@.skip(0) =~= s@);
    while i < s.len()
        invariant
            i <= s@.len(),
            forall|j: int| 0 <= j < i ==> s@[j] != c,
            char_index(s@, c) == (match char_index(s@.skip(i as int), c) {
                Some(k) => Some(k + i),
                None => None::<int>,
            }),
        decreases s@.len() - i,
    {
        assert(s@.skip(i as int).drop_first() =~= s@.skip(i + 1));
        if s[i] == c {
            return Some(i);
        }
        i = i + 1;
    }
    None
}

fn splitn_chars(s: &[char], c: char, n: usize) -> (r: Vec<Vec<char>>)
    requires
        n >= 1,
    ensures
        r@.map_values(|v: Vec<char>| v@) == splitn(s@, c, n as nat),
    decreases n,
{
    let mut r: Vec<Vec<char>> = Vec::new();
    if n <= 1 {
        r.push(vstd::slice::slice_to_vec(s));
        assert(r@.map_values(|v: Vec<char>| v@) =~= seq![s@]);
        return r;
    }
    match index_of_char(s, c) {
        None => {
            r.push(vstd::slice::slice_to_vec(s));
            assert(r@.map_values(|v: Vec<char>| v@) =~= seq![s@]);
            r
        },
        Some(i) => {
            assert(i < s.len());
            let head = vstd::slice::slice_to_vec(vstd::slice::slice_subrange(s, 0, i));
            let mut rest = splitn_chars(vstd::slice::slice_subrange(s, i + 1, s.len()), c, n - 1);
            r.push(head);
            assert(s@.subrange(i + 1, s@.len() as int) =~= s@.skip(i + 1));
            assert(s@.subrange(0, i as int) =~= s@.take(i as int));
            let ghost rv = rest@;
            r.append(&mut rest);
            assert(r@ =~= seq![head] + rv);
            assert(r@.map_values(|v: Vec<char>| v@) =~= seq![s@.take(i as int)] + rv.map_values(|v: Vec<char>| v@));
            r
        },
    }
}

fn strip_parens_chars(s: &[char]) -> (r: Vec<char>)
    ensures
        r@ == strip_parens(s@),
{
    let mut a: usize = 0;
    assert(s@.skip(0) =~= s@);
    while a < s.len() && (s[a] == '(' || s[a] == ')')
        invariant
            a <= s@.len(),
            strip_parens_front(s@) == strip_parens_front(s@.skip(a as int)),
        decreases s@.len() - a,
    {
        assert(s@.skip(a as int).drop_first() =~= s@.skip(a + 1));
        a = a + 1;
    }
    assert(strip_parens_front(s@.skip(a as int)) == s@.skip(a as int));
    let mut b: usize = s.len();
    assert(s@.subrange(a as int, b as int) =~= s@.skip(a as int));
    while b > a && (s[b - 1] == '(' || s[b - 1] == ')')
        invariant
            a <= b <= s@.len(),
            strip_parens(s@) == strip_parens_back(s@.subrange(a as int, b as int)),
        decreases b,
    {
        assert(s@.subrange(a as int, b as int).drop_last() =~= s@.subrange(a as int, b - 1));
        b = b - 1;
    }
    vstd::slice::slice_to_vec(vstd::slice::slice_subrange(s, a, b))
}

fn piece_string(ps: &Vec<Vec<char>>, i: usize) -> (r: String)
    ensures
        r@ == piece(ps@.map_values(|v: Vec<char>| v@), i as int),
{
    if i < ps.len() {
        string_of(ps[i].as_slice())
    } else {
        String::new()
    }
}

/// The first and third of at most three space-separated pieces of `line`.
pub(crate) fn first_and_third_piece(line: &str) -> (r: (String, String))
    ensures
        r.0@ == piece(splitn(line@, ' ', 3), 0),
        r.1@ == piece(splitn(line@, ' ', 3), 2),
{
    let c = chars_of(line);
    let ps = splitn_chars(c.as_slice(), ' ', 3);
    (piece_string(&ps, 0), piece_string(&ps, 2))
}

/// Splits a fingerprint line ("256 SHA256:... comment (ED25519)") into its parts.
pub fn parse_fingerprint(line: &str) -> (r: KeyFingerprint)
    ensures
        (r.bits@, r.hash@, r.comment@, r.key_type@) == fingerprint_parts(line@),
{
    let c = chars_of(line);
    let ps = splitn_chars(c.as_slice(), ' ', 4);
    let last = piece_string(&ps, 3);
    let lc = chars_of(last.as_str());
    KeyFingerprint {
        bits: piece_string(&ps, 0),
        hash: piece_string(&ps, 1),
        comment: piece_string(&ps, 2),
        key_type: string_of(strip_parens_chars(lc.as_slice()).as_slice()),
    }
}

/// The fingerprint from what `ssh-keygen -lf` reported: refused when it failed,
/// otherwise its trimmed output split into parts.
pub fn compute_fingerprint(success: bool, stdout: &str) -> (r: Result<KeyFingerprint, MazeSshError>)
    ensures
        !success ==> (r matches Err(MazeSshError::ConfigError(m)) && m@ == "ssh-keygen could not read key"@),
        success ==> (r matches Ok(f) && (f.bits@, f.hash@, f.comment@, f.key_type@) == fingerprint_parts(trim(stdout@))),
{
    if !success {
        return Err(MazeSshError::ConfigError("ssh-keygen could not read key".to_string()));
    }
    let t = trim_chars(chars_of(stdout).as_slice());
    let line = string_of(t.as_slice());
    Ok(parse_fingerprint(line.as_str()))
}

// ── Key health ──

#[derive(Debug, Clone)]
pub struct KeyHealthIssue {
    pub severity: String,
    pub message: String,
}

#[derive(Debug, Clone)]
pub struct KeyHealthReport {
    pub profile_name: String,
    pub key_type: String,
    pub bits: u32,
    pub has_public_key: bool,
    pub has_passphrase: bool,
    pub is_hardware_key: bool,
    pub issues: Vec<KeyHealthIssue>,
}

/// What was found out about a profile's key files.
#[derive(Debug, Clone)]
pub struct KeyProbe {
    pub private_key_exists: bool,
    pub public_key_exists: bool,
    /// The fingerprint of the public key, when it exists (`None` when it was not asked)
    pub fingerprint: Option<Result<KeyFingerprint, MazeSshError>>,
}

/// A FIDO2 / hardware token key type.
pub open spec fn hardware_type(key_type: Seq<char>) -> bool {
    let u = uppercase(key_type);
    contains_sub(u, "ECDSA-SK"@) || contains_sub(u, "ED25519-SK"@)
}

/// Whether a key type names a FIDO2 / hardware token key.
pub fn is_hardware_key_type(key_type: &str) -> (r: bool)
    ensures
        r == hardware_type(key_type@),
{
    let upper = to_uppercase(key_type);
    str_contains(upper.as_str(), "ECDSA-SK") || str_contains(upper.as_str(), "ED25519-SK")
}

/// The findings about the key's type and size (`key_type` upper-cased).
pub open spec fn type_issues(key_type: Seq<char>, bits: u32) -> Seq<(Seq<char>, Seq<char>)> {
    let size = if contains_sub(key_type, "DSA"@) {
        seq![("critical"@, "DSA keys are deprecated and insecure"@)]
    } else if contains_sub(key_type, "RSA"@) && bits < 2048 {
        seq![("critical"@, "RSA key too short ("@ + decimal(bits as nat) + " bits, minimum 2048)"@)]
    } else if contains_sub(key_type, "RSA"@) && bits < 4096 {
        seq![("info"@, "RSA "@ + decimal(bits as nat) + " bits — consider 4096 or Ed25519"@)]
    } else {
        Seq::empty()
    };
    let hw = if hardware_type(key_type) {
        seq![("info"@, "FIDO2/hardware token key — requires physical device for operations"@)]
    } else {
        Seq::empty()
    };
    size + hw
}

/// The key type and size a report shows: from the fingerprint when the public key
/// exists and its fingerprint was read, otherwise "Unknown" and 0.
pub open spec fn reported_type(probe: KeyProbe) -> (Seq<char>, u32) {
    if probe.public_key_exists {
        match probe.fingerprint {
            Some(Ok(f)) => (uppercase(f.key_type@), match parse_u32(f.bits@) {
                Some(b) => b,
                None => 0,
            }),
            _ => ("Unknown"@, 0),
        }
    } else {
        ("Unknown"@, 0)
    }
}

/// The findings about a profile's key, in the order they are checked.
pub open spec fn health_issues(p: SshProfile, probe: KeyProbe) -> Seq<(Seq<char>, Seq<char>)> {
    let a = if !probe.private_key_exists {
        seq![("critical"@, "Private key file not found"@)]
    } else {
        Seq::empty()
    };
    let b = if !probe.public_key_exists {
        seq![("warning"@, "Public key file not found"@)]
    } else {
        Seq::empty()
    };
    let c = if !p.has_passphrase {
        seq![("warning"@, "Key has no passphrase protection"@)]
    } else {
        Seq::empty()
    };
    let d = if probe.public_key_exists {
        match probe.fingerprint {
            Some(Ok(_)) => type_issues(reported_type(probe).0, reported_type(probe).1),
            _ => seq![("warning"@, "Could not read key fingerprint"@)],
        }
    } else {
        Seq::empty()
    };
    a + b + c + d
}

pub open spec fn issue_views(v: Seq<KeyHealthIssue>) -> Seq<(Seq<char>, Seq<char>)> {
    v.map_values(|i: KeyHealthIssue| (i.severity@, i.message@))
}

/// The report of one profile's key matches its findings.
pub open spec fn report_fits(r: KeyHealthReport, p: SshProfile, probe: KeyProbe) -> bool {
    &&& r.profile_name@ == p.name@
    &&& r.key_type@ == reported_type(probe).0
    &&& r.bits == reported_type(probe).1
    &&& r.has_public_key == probe.public_key_exists
    &&& r.has_passphrase == p.has_passphrase
    &&& r.is_hardware_key == hardware_type(reported_type(probe).0)
    &&& issue_views(r.issues@) == health_issues(p, probe)
}

fn issue(severity: &str, message: String) -> (r: KeyHealthIssue)
    ensures
        r.severity@ == severity@,
        r.message@ == message@,
{
    KeyHealthIssue { severity: severity.to_string(), message }
}

fn push_issue(v: &mut Vec<KeyHealthIssue>, severity: &str, message: String)
    ensures
        issue_views(final(v)@) == issue_views(old(v)@).push((severity@, message@)),
{
    v.push(issue(severity, message));
    assert(issue_views(v@) =~= issue_views(old(v)@).push((severity@, message@)));
}

fn bits_message(prefix: &str, bits: u32, suffix: &str) -> (r: String)
    ensures
        r@ == prefix@ + decimal(bits as nat) + suffix@,
{
    let mut s = prefix.to_string();
    push_decimal(&mut s, bits as u64);
    s.append(suffix);
    s
}

/// The health report of one profile's key.
#[verifier::rlimit(30)]
pub fn key_health(profile: &SshProfile, probe: &KeyProbe) -> (r: KeyHealthReport)
    ensures
        report_fits(r, *profile, *probe),
{
    let mut issues: Vec<KeyHealthIssue> = Vec::new();
    let ghost e: Seq<(Seq<char>, Seq<char>)> = Seq::empty();
    assert(issue_views(issues@) =~= e);
    if !probe.private_key_exists {
        push_issue(&mut issues, "critical", "Private key file not found".to_string());
    }
    let ghost va = issue_views(issues@);
    if !probe.public_key_exists {
        push_issue(&mut issues, "warning", "Public key file not found".to_string());
    }
    let ghost vb = issue_views(issues@);
    if !profile.has_passphrase {
        push_issue(&mut issues, "warning", "Key has no passphrase protection".to_string());
    }
    let ghost vc = issue_views(issues@);
    let mut key_type = "Unknown".to_string();
    let mut bits: u32 = 0;
    if probe.public_key_exists {
        match &probe.fingerprint {
            Some(Ok(f)) => {
                let bc = chars_of(f.bits.as_str());
                bits = match parse_u32_chars(bc.as_slice()) {
                    Some(b) => b,
                    None => 0,
                };
                key_type = to_uppercase(f.key_type.as_str());
                let kt = key_type.as_str();
                let ghost before = issue_views(issues@);
                if str_contains(kt, "DSA") {
                    push_issue(&mut issues, "critical", "DSA keys are deprecated and insecure".to_string());
                } else if str_contains(kt, "RSA") && bits < 2048 {
                    push_issue(&mut issues, "critical", bits_message("RSA key too short (", bits, " bits, minimum 2048)"));
                } else if str_contains(kt, "RSA") && bits < 4096 {
                    push_issue(&mut issues, "info", bits_message("RSA ", bits, " bits — consider 4096 or Ed25519"));
                }
                let ghost mid = issue_views(issues@);
                if is_hardware_key_type(kt) {
                    push_issue(
                        &mut issues,
                        "info",
                        "FIDO2/hardware token key — requires physical device for operations".to_string(),
                    );
                }
                proof {
                    let t = type_issues(key_type@, bits);
                    assert(issue_views(issues@) =~= before + t);
                }
            },
            _ => {
                push_issue(&mut issues, "warning", "Could not read key fingerprint".to_string());
            },
        }
    }
    let is_hardware_key = is_hardware_key_type(key_type.as_str());
    proof {
        assert(issue_views(issues@) =~= health_issues(*profile, *probe));
    }
    KeyHealthReport {
        profile_name: profile.name.clone(),
        key_type,
        bits,
        has_public_key: probe.public_key_exists,
        has_passphrase: profile.has_passphrase,
        is_hardware_key,
        issues,
    }
}

/// The size findings of an RSA key report (a key type naming RSA and not DSA, read
/// from its fingerprint): under 2048 bits it is reported as critically short; from
/// 2048 up to 4096 bits it gets the advice to move to 4096 bits or Ed25519; and from
/// 2048 bits on, the only critical finding a report can hold is a missing private
/// key file.
pub proof fn lemma_rsa_size_findings(r: KeyHealthReport, p: SshProfile, probe: KeyProbe)
    requires
        report_fits(r, p, probe),
        probe.public_key_exists,
        probe.fingerprint matches Some(Ok(_)),
        contains_sub(r.key_type@, "RSA"@),
        !contains_sub(r.key_type@, "DSA"@),
    ensures
        r.bits < 2048 ==> issue_views(r.issues@).contains(
            ("critical"@, "RSA key too short ("@ + decimal(r.bits as nat) + " bits, minimum 2048)"@),
        ),
        2048 <= r.bits < 4096 ==> issue_views(r.issues@).contains(
            ("info"@, "RSA "@ + decimal(r.bits as nat) + " bits — consider 4096 or Ed25519"@),
        ),
        r.bits >= 2048 ==> forall|j: int|
            0 <= j < issue_views(r.issues@).len() && (#[trigger] issue_views(r.issues@)[j]).0 == "critical"@
                ==> issue_views(r.issues@)[j].1 == "Private key file not found"@,
        r.bits >= 4096 ==> forall|j: int|
            0 <= j < issue_views(r.issues@).len() && (#[trigger] issue_views(r.issues@)[j]).0 == "info"@
                ==> issue_views(r.issues@)[j].1
                == "FIDO2/hardware token key — requires physical device for operations"@,
{
    reveal_strlit("critical");
    reveal_strlit("info");
    reveal_strlit("warning");
    let v = issue_views(r.issues@);
    let a = if !probe.private_key_exists {
        seq![("critical"@, "Private key file not found"@)]
    } else {
        Seq::empty()
    };
    let c = if !p.has_passphrase {
        seq![("warning"@, "Key has no passphrase protection"@)]
    } else {
        Seq::empty()
    };
    let kt = reported_type(probe).0;
    let bits = reported_type(probe).1;
    let t = type_issues(kt, bits);
    assert(v =~= a + c + t);
    let pre = a + c;
    if bits < 2048 || bits < 4096 {
        assert(v[pre.len() as int] == t[0]);
    }
    if bits >= 2048 {
        assert("info"@.len() != "critical"@.len());
        assert("warning"@.len() != "critical"@.len());
        assert(forall|k: int| 0 <= k < t.len() ==> (#[trigger] t[k]).0 == "info"@);
        assert forall|j: int| 0 <= j < v.len() && (#[trigger] v[j]).0 == "critical"@ implies v[j].1
            == "Private key file not found"@ by {
            if j >= pre.len() {
                assert(v[j] == t[j - pre.len()]);
                assert(t[j - pre.len()].0 == "info"@);
            } else if j >= a.len() {
                assert(v[j] == c[j - a.len()]);
            }
        }
    }
    if bits >= 4096 {
        assert("info"@.len() != "critical"@.len());
        assert("info"@.len() != "warning"@.len());
        assert forall|j: int| 0 <= j < v.len() && (#[trigger] v[j]).0 == "info"@ implies v[j].1
            == "FIDO2/hardware token key — requires physical device for operations"@ by {
            if j >= pre.len() {
                assert(v[j] == t[j - pre.len()]);
            } else if j >= a.len() {
                assert(v[j] == c[j - a.len()]);
            }
        }
    }
}

/// The health check of every profile's key, refused while the app is locked.
/// `probes[i]` is what was found out about the key files of `profiles[i]`.
pub fn check_all_keys_health(
    security: &mut SecurityState,
    now: u64,
    profiles: &[SshProfile],
    probes: &[KeyProbe],
) -> (r: Result<Vec<KeyHealthReport>, MazeSshError>)
    requires
        probes@.len() == profiles@.len(),
    ensures
        old(security).is_locked ==> (r matches Err(MazeSshError::AppLocked)) && *final(security) == *old(security),
        !old(security).is_locked ==> *final(security) == (SecurityState { last_activity: now, ..*old(security) }),
        !old(security).is_locked ==> (r matches Ok(v) && v@.len() == profiles@.len()
            && forall|i: int| 0 <= i < v@.len() ==> report_fits(#[trigger] v@[i], profiles@[i], probes@[i])),
{
    match ensure_unlocked(security, now) {
        Err(e) => return Err(e),
        Ok(()) => {},
    }
    let mut out: Vec<KeyHealthReport> = Vec::new();
    let mut i: usize = 0;
    while i < profiles.len()
        invariant
            i <= profiles@.len(),
            probes@.len() == profiles@.len(),
            out@.len() == i,
            forall|j: int| 0 <= j < i ==> report_fits(#[trigger] out@[j], profiles@[j], probes@[j]),
        decreases profiles@.len() - i,
    {
        out.push(key_health(&profiles[i], &probes[i]));
        i = i + 1;
    }
    Ok(out)
}

} // verus!
