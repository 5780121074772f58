//! WSL: decoding and parsing `wsl -l -v`, distro-name validation and the readings of
//! the probes that run inside a distro (which shells exist, whether systemd runs).
use vstd::prelude::*;
use vstd::utf8::{decode_utf8, valid_utf8};

use crate::bridge::WslDistro;
use crate::error::MazeSshError;
use crate::text::{
    alnum, chars_of, contains_sub, is_alphanumeric, join_spaces, join_spaces_prefix,
    lines, lines_of, parse_u8, parse_u8_chars, split_whitespace, str_contains, string_of, trim,
    trim_chars, views, words,
};

verus! {

/// A shell detected inside a WSL distro.
#[derive(Debug, Clone)]
pub struct ShellProfile {
    /// "bash" | "zsh" | "fish"
    pub shell: String,
    /// "~/.bashrc" | "~/.zshrc" | "~/.config/fish/config.fish"
    pub rc_file: String,
    pub is_installed: bool,
}

/// Output from a command executed inside WSL.
#[derive(Debug, Clone)]
pub struct CmdOutput {
    pub stdout: String,
    pub stderr: String,
    pub success: bool,
}

/// Whether a probe ran and exited successfully.
pub open spec fn ran_ok(o: Option<CmdOutput>) -> bool {
    match o {
        Some(x) => x.success,
        None => false,
    }
}

fn succeeded(o: &Option<CmdOutput>) -> (r: bool)
    ensures
        r == ran_ok(*o),
{
    match o {
        Some(x) => x.success,
        None => false,
    }
}

/// The shells of a distro, from the outcome of `which zsh` and `which fish`
/// (`None` when the probe could not run). bash is always present.
pub fn detect_shells(which_zsh: &Option<CmdOutput>, which_fish: &Option<CmdOutput>) -> (v: Vec<ShellProfile>)
    ensures
        v@.len() == 3,
        v@[0].shell@ == "bash"@ && v@[0].rc_file@ == "~/.bashrc"@ && v@[0].is_installed,
        v@[1].shell@ == "zsh"@ && v@[1].rc_file@ == "~/.zshrc"@ && v@[1].is_installed == ran_ok(
            *which_zsh,
        ),
        v@[2].shell@ == "fish"@ && v@[2].rc_file@ == "~/.config/fish/config.fish"@
            && v@[2].is_installed == ran_ok(*which_fish),
{
    let mut v: Vec<ShellProfile> = Vec::new();
    v.push(ShellProfile { shell: "bash".to_string(), rc_file: "~/.bashrc".to_string(), is_installed: true });
    v.push(
        ShellProfile {
            shell: "zsh".to_string(),
            rc_file: "~/.zshrc".to_string(),
            is_installed: succeeded(which_zsh),
        },
    );
    v.push(
        ShellProfile {
            shell: "fish".to_string(),
            rc_file: "~/.config/fish/config.fish".to_string(),
            is_installed: succeeded(which_fish),
        },
    );
    v
}

/// Whether a file exists, from the outcome of `test -e <path>`.
pub fn wsl_file_exists(test: &Option<CmdOutput>) -> (r: bool)
    ensures
        r == ran_ok(*test),
{
    succeeded(test)
}

/// Whether socat is installed, from the outcome of `which socat`.
pub fn has_socat(which: &Option<CmdOutput>) -> (r: bool)
    ensures
        r == ran_ok(*which),
{
    succeeded(which)
}

/// What the outcome of `systemctl --user status` says of systemd.
pub open spec fn systemd_running(o: Option<CmdOutput>) -> bool {
    match o {
        Some(x) => !contains_sub(x.stderr@, "not been booted with systemd"@) && !contains_sub(
            x.stderr@,
            "Failed to connect"@,
        ),
        None => false,
    }
}

/// Whether `systemd --user` is functional, from the outcome of `systemctl --user status`:
/// it is unless the command could not run or its error output says that systemd
/// was not booted or could not be reached.
pub fn has_systemd(status: &Option<CmdOutput>) -> (r: bool)
    ensures
        r == systemd_running(*status),
{
    match status {
        Some(o) => !str_contains(o.stderr.as_str(), "not been booted with systemd") && !str_contains(
            o.stderr.as_str(),
            "Failed to connect",
        ),
        None => false,
    }
}

/// Characters allowed in a distro name besides letters and digits.
pub open spec fn distro_name_char(c: char) -> bool {
    alnum(c) || c == ' ' || c == '-' || c == '_' || c == '.'
}

/// What validating a distro name gives: its error message, or `None` when valid.
pub open spec fn distro_name_error(d: Seq<char>) -> Option<Seq<char>> {
    if trim(d).len() == 0 {
        Some("Distro name cannot be empty"@)
    } else if vstd::utf8::encode_utf8(d).len() as usize > 128 {
        Some("Distro name too long (max 128 chars)"@)
    } else if !(forall|i: int| 0 <= i < d.len() ==> distro_name_char(#[trigger] d[i])) {
        Some("Distro name '"@ + d + "' contains invalid characters"@)
    } else {
        None
    }
}

/// Checks a distro name before it is passed to `wsl -d`: not blank, at most 128
/// bytes, only letters, digits, spaces, `-`, `_` and `.`.
pub fn validate_distro_name(distro: &str) -> (r: Result<(), MazeSshError>)
    ensures
        match r {
            Ok(()) => distro_name_error(distro@) is None,
            Err(e) => e matches MazeSshError::WslCommandFailed(m) && distro_name_error(distro@)
                == Some(m@),
        },
{
    let c = chars_of(distro);
    let t = trim_chars(c.as_slice());
    if t.len() == 0 {
        return Err(MazeSshError::WslCommandFailed("Distro name cannot be empty".to_string()));
    }
    if distro.len() > 128 {
        return Err(MazeSshError::WslCommandFailed("Distro name too long (max 128 chars)".to_string()));
    }
    let mut i: usize = 0;
    while i < c.len()
        invariant
            i <= c@.len(),
            c@ == distro@,
            trim(distro@).len() > 0,
            vstd::utf8::encode_utf8(distro@).len() as usize <= 128,
            forall|k: int| 0 <= k < i ==> distro_name_char(#[trigger] c@[k]),
        decreases c@.len() - i,
    {
        let ch = c[i];
        if !(is_alphanumeric(ch) || ch == ' ' || ch == '-' || ch == '_' || ch == '.') {
            let mut m = "Distro name '".to_string();
            m.append(distro);
            m.append("' contains invalid characters");
            return Err(MazeSshError::WslCommandFailed(m));
        }
        i = i + 1;
    }
    Ok(())
}

// ── `wsl -l -v` ──

pub open spec fn star_blank(c: char) -> char {
    if c == '*' {
        ' '
    } else {
        c
    }
}

/// The distro a line of `wsl -l -v` lists, as (name, state, version, is default):
/// the words of the line with `*` blanked, the last one the version and the one
/// before it the state, the rest the name.
pub open spec fn distro_entry(line: Seq<char>) -> Option<(Seq<char>, Seq<char>, u8, bool)> {
    if trim(line).len() == 0 {
        None
    } else {
        let parts = words(line.map_values(|c: char| star_blank(c)));
        if parts.len() < 3 {
            None
        } else {
            let version = match parse_u8(parts.last()) {
                Some(v) => v,
                None => 0u8,
            };
            let name = join_spaces(parts.take(parts.len() - 2));
            if name.len() == 0 || version == 0 {
                None
            } else {
                Some((name, parts[parts.len() - 2], version, line.contains('*')))
            }
        }
    }
}

/// The distros that the lines `ls` list, in order.
pub open spec fn distro_entries(ls: Seq<Seq<char>>) -> Seq<(Seq<char>, Seq<char>, u8, bool)>
    decreases ls.len(),
{
    if ls.len() == 0 {
        Seq::empty()
    } else {
        let p = distro_entries(ls.drop_last());
        match distro_entry(ls.last()) {
            Some(e) => p.push(e),
            None => p,
        }
    }
}

pub open spec fn distro_view(d: WslDistro) -> (Seq<char>, Seq<char>, u8, bool) {
    (d.name@, d.state@, d.version, d.is_default)
}

/// The distros that `wsl -l -v` output lists: every line after the header.
pub open spec fn listed_distros(text: Seq<char>) -> Seq<(Seq<char>, Seq<char>, u8, bool)> {
    let ls = lines(text);
    if ls.len() == 0 {
        Seq::empty()
    } else {
        distro_entries(ls.drop_first())
    }
}

fn has_star(line: &[char]) -> (r: bool)
    ensures
        r == line@.contains('*'),
{
    let mut i: usize = 0;
    while i < line.len()
        invariant
            i <= line@.len(),
            forall|k: int| 0 <= k < i ==> line@[k] != '*',
        decreases line@.len() - i,
    {
        if line[i] == '*' {
            assert(line@[i as int] == '*');
            return true;
        }
        i = i + 1;
    }
    false
}

fn blank_stars(line: &[char]) -> (r: Vec<char>)
    ensures
        r@ == line@.map_values(|c: char| star_blank(c)),
{
    let mut r: Vec<char> = Vec::new();
    let mut i: usize = 0;
    while i < line.len()
        invariant
            i <= line@.len(),
            r@ == line@.take(i as int).map_values(|c: char| star_blank(c)),
        decreases line@.len() - i,
    {
        let c = line[i];
        r.push(if c == '*' { ' ' } else { c });
        assert(line@.take(i + 1).map_values(|c: char| star_blank(c)) =~= line@.take(
            i as int,
        ).map_values(|c: char| star_blank(c)).push(star_blank(c)));
        i = i + 1;
    }
    assert(line@.take(line@.len() as int) =~= line@);
    r
}

/// The distro that one line of `wsl -l -v` lists, if any.
fn parse_distro_line(line: &Vec<char>) -> (r: Option<WslDistro>)
    ensures
        match r {
            Some(d) => distro_entry(line@) == Some(distro_view(d)),
            None => distro_entry(line@) is None,
        },
{
    let t = trim_chars(line.as_slice());
    if t.len() == 0 {
        return None;
    }
    let is_default = has_star(line.as_slice());
    let clean = blank_stars(line.as_slice());
    let parts = split_whitespace(clean.as_slice());
    let ghost p = views(parts@);
    let n = parts.len();
    if n < 3 {
        return None;
    }
    assert(p.last() == parts@[n - 1]@);
    assert(p[n - 2] == parts@[n - 2]@);
    let version = match parse_u8_chars(parts[n - 1].as_slice()) {
        Some(v) => v,
        None => 0u8,
    };
    let state = string_of(parts[n - 2].as_slice());
    let name = join_spaces_prefix(&parts, n - 2);
    if name.as_str().is_empty() || version == 0 {
        return None;
    }
    Some(WslDistro { name, state, version, is_default })
}

/// Parses the text of `wsl -l -v`: the header line is skipped, and so is every
/// line that is blank or does not end in a state and a non-zero version.
pub fn parse_distro_list(text: &str) -> (r: Result<Vec<WslDistro>, MazeSshError>)
    ensures
        r matches Ok(v) && v@.map_values(|d: WslDistro| distro_view(d)) == listed_distros(text@),
{
    let ls = lines_of(chars_of(text).as_slice());
    let ghost v = views(ls@);
    let mut out: Vec<WslDistro> = Vec::new();
    if ls.len() == 0 {
        assert(out@.map_values(|d: WslDistro| distro_view(d)) =~= Seq::<
            (Seq<char>, Seq<char>, u8, bool),
        >::empty());
        return Ok(out);
    }
    let mut i: usize = 1;
    assert(v.drop_first().take(0) =~= Seq::<Seq<char>>::empty());
    assert(out@.map_values(|d: WslDistro| distro_view(d)) =~= Seq::<
        (Seq<char>, Seq<char>, u8, bool),
    >::empty());
    while i < ls.len()
        invariant
            1 <= i <= ls@.len(),
            v == views(ls@),
            v.len() == ls@.len(),
            out@.map_values(|d: WslDistro| distro_view(d)) == distro_entries(
                v.drop_first().take(i - 1),
            ),
        decreases ls@.len() - i,
    {
        let ghost before = out@.map_values(|d: WslDistro| distro_view(d));
        assert(v.drop_first().take(i as int).drop_last() =~= v.drop_first().take(i - 1));
        assert(v.drop_first().take(i as int).last() == ls@[i as int]@);
        match parse_distro_line(&ls[i]) {
            Some(d) => {
                let ghost dv = distro_view(d);
                out.push(d);
                assert(out@.map_values(|d: WslDistro| distro_view(d)) =~= before.push(dv));
            },
            None => {},
        }
        i = i + 1;
    }
    assert(v.drop_first().take(ls@.len() - 1) =~= v.drop_first());
    Ok(out)
}

// ── Decoding the raw output ──

/// What `String::from_utf16_lossy` gives for `units`.
pub uninterp spec fn utf16_lossy(units: Seq<u16>) -> Seq<char>;

/// What `String::from_utf8_lossy` gives for `bytes`.
pub uninterp spec fn utf8_lossy(bytes: Seq<u8>) -> Seq<char>;

/// `String::from_utf16_lossy`; units below 0xD800 each decode to the character
/// with that code.
#[verifier::external_body]
fn from_utf16_lossy(units: &[u16]) -> (r: String)
    ensures
        r@ == utf16_lossy(units@),
        (forall|i: int| 0 <= i < units@.len() ==> units@[i] < 0xD800) ==> r@ == units@.map_values(
            |u: u16| u as char,
        ),
{
    String::from_utf16_lossy(units)
}

/// `String::from_utf8_lossy`; on valid UTF-8 it is the decoding.
#[verifier::external_body]
fn from_utf8_lossy(bytes: &[u8]) -> (r: String)
    ensures
        r@ == utf8_lossy(bytes@),
        valid_utf8(bytes@) ==> r@ == decode_utf8(bytes@),
{
    String::from_utf8_lossy(bytes).to_string()
}

/// The little-endian 16-bit units of `b`, two bytes each.
pub open spec fn le_units(b: Seq<u8>) -> Seq<u16> {
    Seq::new(b.len() / 2, |i: int| (b[2 * i] + 256 * b[2 * i + 1]) as u16)
}

/// Whether every unit is below the surrogate range, so that each stands for one character.
pub open spec fn below_surrogates(units: Seq<u16>) -> bool {
    forall|i: int| 0 <= i < units.len() ==> #[trigger] units[i] < 0xD800
}

/// The characters with the codes `units`.
pub open spec fn unit_chars(units: Seq<u16>) -> Seq<char> {
    units.map_values(|u: u16| u as char)
}

/// The raw output after its byte-order mark, if it has one.
pub open spec fn wsl_body(raw: Seq<u8>) -> Seq<u8> {
    if raw.len() >= 2 && raw[0] == 0xFF && raw[1] == 0xFE {
        raw.skip(2)
    } else {
        raw
    }
}

pub open spec fn has_ascii_letter(s: Seq<char>) -> bool {
    exists|i: int| 0 <= i < s.len() && (('a' <= #[trigger] s[i] <= 'z') || ('A' <= s[i] <= 'Z'))
}

/// What decoding the raw output of `wsl -l -v` gives: UTF-16LE (after a BOM, if
/// there is one) when the bytes pair up and the text holds an ASCII letter,
/// otherwise lossy UTF-8.
pub open spec fn wsl_text(raw: Seq<u8>) -> Seq<char> {
    let body = wsl_body(raw);
    if raw.len() >= 2 && body.len() % 2 == 0 && has_ascii_letter(utf16_lossy(le_units(body))) {
        utf16_lossy(le_units(body))
    } else {
        utf8_lossy(raw)
    }
}

/// Decodes the raw bytes of `wsl -l -v`, which is UTF-16LE with a BOM on Windows.
/// Units below the surrogate range decode each to the character with that code.
pub fn decode_wsl_output(raw: &[u8]) -> (r: String)
    ensures
        r@ == wsl_text(raw@),
        raw@.len() >= 2 && wsl_body(raw@).len() % 2 == 0 && below_surrogates(le_units(wsl_body(raw@)))
            ==> utf16_lossy(le_units(wsl_body(raw@))) == unit_chars(le_units(wsl_body(raw@))),
{
    if raw.len() >= 2 {
        let start: usize = if raw[0] == 0xFF && raw[1] == 0xFE {
            2
        } else {
            0
        };
        let ghost body = raw@.skip(start as int);
        assert(body =~= wsl_body(raw@));
        if (raw.len() - start) % 2 == 0 {
            let mut units: Vec<u16> = Vec::new();
            let mut k: usize = start;
            while raw.len() - k >= 2
                invariant
                    start <= k <= raw@.len(),
                    (k - start) % 2 == 0,
                    (raw@.len() - start) % 2 == 0,
                    body == raw@.skip(start as int),
                    units@ == le_units(body).take((k - start) / 2),
                decreases raw@.len() - k,
            {
                let u: u16 = (raw[k] as u16) + (raw[k + 1] as u16) * 256;
                proof {
                    assert(body[k - start] == raw@[k as int]);
                    assert(body[k - start + 1] == raw@[k + 1]);
                    assert(le_units(body)[(k - start) / 2] == u);
                    assert(le_units(body).take((k - start) / 2 + 1) =~= le_units(body).take(
                        (k - start) / 2,
                    ).push(u));
                }
                units.push(u);
                k = k + 2;
            }
            assert(units@ =~= le_units(body));
            let decoded = from_utf16_lossy(units.as_slice());
            assert(below_surrogates(le_units(body)) ==> decoded@ == unit_chars(le_units(body)));
            let dc = chars_of(decoded.as_str());
            let mut i: usize = 0;
            while i < dc.len()
                invariant
                    i <= dc@.len(),
                    dc@ == decoded@,
                    raw@.len() >= 2,
                    start == (if raw@[0] == 0xFF && raw@[1] == 0xFE {
                        2int
                    } else {
                        0int
                    }),
                    body == raw@.skip(start as int),
                    body.len() % 2 == 0,
                    decoded@ == utf16_lossy(le_units(body)),
                    body == wsl_body(raw@),
                    below_surrogates(le_units(body)) ==> decoded@ == unit_chars(le_units(body)),
                    forall|j: int| 0 <= j < i ==> !(('a' <= #[trigger] dc@[j] <= 'z') || ('A' <= dc@[j] <= 'Z')),
                decreases dc@.len() - i,
            {
                let c = dc[i];
                if ('a' <= c && c <= 'z') || ('A' <= c && c <= 'Z') {
                    assert(has_ascii_letter(decoded@)) by {
                        assert(dc@[i as int] == c);
                    }
                    return decoded;
                }
                i = i + 1;
            }
        }
    }
    from_utf8_lossy(raw)
}

/// The arguments of `wsl` that run `args` inside `distro`: `-d <distro> --`, then
/// `args`. Refused, as `validate_distro_name` refuses, for a name that could not
/// be passed safely.
pub fn run_in_wsl_args(distro: &str, args: &[String]) -> (r: Result<Vec<String>, MazeSshError>)
    ensures
        match distro_name_error(distro@) {
            Some(m) => r matches Err(MazeSshError::WslCommandFailed(e)) && e@ == m,
            None => r matches Ok(v) && v@.map_values(|s: String| s@) == seq!["-d"@, distro@, "--"@]
                + args@.map_values(|s: String| s@),
        },
{
    match validate_distro_name(distro) {
        Err(e) => return Err(e),
        Ok(()) => {},
    }
    let mut v: Vec<String> = Vec::new();
    v.push("-d".to_string());
    v.push(distro.to_string());
    v.push("--".to_string());
    let mut i: usize = 0;
    while i < args.len()
        invariant
            i <= args@.len(),
            v@.len() == 3 + i,
            v@.map_values(|s: String| s@) =~= seq!["-d"@, distro@, "--"@] + args@.take(i as int).map_values(
                |s: String| s@,
            ),
        decreases args@.len() - i,
    {
        let ghost before = v@;
        v.push(args[i].clone());
        assert(v@.map_values(|s: String| s@) =~= before.map_values(|s: String| s@).push(args@[i as int]@));
        i = i + 1;
        assert(args@.take(i as int).map_values(|s: String| s@) =~= args@.take(i - 1).map_values(|s: String| s@).push(
            args@[i - 1]@,
        ));
    }
    assert(args@.take(args@.len() as int) =~= args@);
    Ok(v)
}

} // verus!

