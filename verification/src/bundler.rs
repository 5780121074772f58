//! Relay binaries from GitHub releases: picking the asset and its checksum file
//! from a release, reading the expected SHA-256, checking a download against it,
//! download progress, and installed-version bookkeeping.
use vstd::prelude::*;

use crate::error::MazeSshError;
use crate::provider::{binary_version_key, BinaryVersion, RelayBinary};
use crate::text::{chars_of, lines, lines_of, string_of, trim, trim_chars, views};
use sha2::{Digest, Sha256};

verus! {

/// SHA-256 of the bytes.
pub uninterp spec fn sha256(data: Seq<u8>) -> Seq<u8>;

/// `Sha256::digest`.
#[verifier::external_body]
fn sha256_digest(data: &[u8]) -> (r: Vec<u8>)
    ensures
        r@ == sha256(data@),
{
    Sha256::digest(data).to_vec()
}

pub open spec fn hex_digit(n: u8) -> char {
    if n < 10 {
        (48 + n) as char
    } else {
        (87 + n) as char
    }
}

/// Lower-case hexadecimal of the bytes, two digits each.
pub open spec fn hex_lower(b: Seq<u8>) -> Seq<char>
    decreases b.len(),
{
    if b.len() == 0 {
        Seq::empty()
    } else {
        hex_lower(b.drop_last()) + seq![hex_digit(b.last() / 16), hex_digit(b.last() % 16)]
    }
}

/// `hex::encode`: lower-case hexadecimal, two digits per byte.
#[verifier::external_body]
fn hex_encode(b: &[u8]) -> (r: String)
    ensures
        r@ == hex_lower(b@),
{
    hex::encode(b)
}

/// SHA-256 of `data` as lower-case hex.
pub fn sha256_hex(data: &[u8]) -> (r: String)
    ensures
        r@ == hex_lower(sha256(data@)),
{
    let d = sha256_digest(data);
    hex_encode(d.as_slice())
}

pub open spec fn is_hex_char(c: char) -> bool {
    ('0' <= c <= '9') || ('a' <= c <= 'f') || ('A' <= c <= 'F')
}

pub open spec fn ascii_lower_char(c: char) -> char {
    if 'A' <= c <= 'Z' {
        ((c as u32) + 32) as char
    } else {
        c
    }
}

/// `str::to_ascii_lowercase`.
pub open spec fn ascii_lowercase(s: Seq<char>) -> Seq<char> {
    s.map_values(|c: char| ascii_lower_char(c))
}

fn to_ascii_lowercase(s: &[char]) -> (r: String)
    ensures
        r@ == ascii_lowercase(s@),
{
    let mut r = String::new();
    let mut i: usize = 0;
    while i < s.len()
        invariant
            i <= s@.len(),
            r@ == ascii_lowercase(s@.take(i as int)),
        decreases s@.len() - i,
    {
        let c = s[i];
        let d = if 'A' <= c && c <= 'Z' {
            ((c as u8) + 32) as char
        } else {
            c
        };
        assert(d == ascii_lower_char(c)) by {
            if 'A' <= c <= 'Z' {
                assert(((c as u8) + 32) as char == ((c as u32) + 32) as char);
            }
        }
        crate::text::push_char(&mut r, d);
        assert(ascii_lowercase(s@.take(i + 1)) =~= ascii_lowercase(s@.take(i as int)).push(d));
        i = i + 1;
    }
    assert(s@.take(s@.len() as int) =~= s@);
    r
}

pub open spec fn utf8_len(s: Seq<char>) -> usize {
    vstd::utf8::encode_utf8(s).len() as usize
}

/// `s` split at its first space (`splitn(2, ' ')`): the part before and the part
/// after, or `None` when there is no space.
pub open spec fn split_first_space(s: Seq<char>) -> Option<(Seq<char>, Seq<char>)> {
    if s.contains(' ') {
        let i = choose|i: int| 0 <= i < s.len() && s[i] == ' ' && forall|j: int| 0 <= j < i ==> s[j] != ' ';
        Some((s.take(i), s.skip(i + 1)))
    } else {
        None
    }
}

/// `s` without its leading `*` characters.
pub open spec fn strip_stars(s: Seq<char>) -> Seq<char>
    decreases s.len(),
{
    if s.len() > 0 && s[0] == '*' {
        strip_stars(s.drop_first())
    } else {
        s
    }
}

/// The hash a checksum line gives for `asset`, if it names it.
pub open spec fn line_hash(line: Seq<char>, asset: Seq<char>) -> Option<Seq<char>> {
    match split_first_space(line) {
        Some((h, f)) => if strip_stars(trim(f)) == asset && utf8_len(trim(h)) == 64 {
            Some(ascii_lowercase(trim(h)))
        } else {
            None
        },
        None => None,
    }
}

/// The first line's hash for `asset`.
pub open spec fn first_line_hash(ls: Seq<Seq<char>>, asset: Seq<char>) -> Option<Seq<char>>
    decreases ls.len(),
{
    if ls.len() == 0 {
        None
    } else if line_hash(ls[0], asset) is Some {
        line_hash(ls[0], asset)
    } else {
        first_line_hash(ls.drop_first(), asset)
    }
}

/// The expected SHA-256 hex for `asset` in a checksum file: the whole (trimmed) file
/// when it is exactly 64 hex digits, otherwise the first `<hex> <name>` or
/// `<hex> *<name>` line that names the asset; lower-cased.
pub open spec fn expected_checksum(text: Seq<char>, asset: Seq<char>) -> Option<Seq<char>> {
    let t = trim(text);
    if utf8_len(t) == 64 && forall|i: int| 0 <= i < t.len() ==> is_hex_char(#[trigger] t[i]) {
        Some(ascii_lowercase(t))
    } else {
        first_line_hash(lines(t), asset)
    }
}

fn all_hex(s: &[char]) -> (r: bool)
    ensures
        r == forall|i: int| 0 <= i < s@.len() ==> is_hex_char(#[trigger] s@[i]),
{
    let mut i: usize = 0;
    while i < s.len()
        invariant
            i <= s@.len(),
            forall|k: int| 0 <= k < i ==> is_hex_char(#[trigger] s@[k]),
        decreases s@.len() - i,
    {
        let c = s[i];
        if !(('0' <= c && c <= '9') || ('a' <= c && c <= 'f') || ('A' <= c && c <= 'F')) {
            assert(!is_hex_char(s@[i as int]));
            return false;
        }
        i = i + 1;
    }
    true
}

fn strip_stars_exec(s: &[char]) -> (r: Vec<char>)
    ensures
        r@ == strip_stars(s@),
{
    let mut i: usize = 0;
    assert(s@.skip(0) == s@);
    while i < s.len() && s[i] == '*'
        invariant
            i <= s@.len(),
            strip_stars(s@) == strip_stars(s@.skip(i as int)),
        decreases s@.len() - i,
    {
        assert(s@.skip(i as int).drop_first() == s@.skip(i as int + 1));
        i = i + 1;
    }
    vstd::slice::slice_to_vec(vstd::slice::slice_subrange(s, i, s.len()))
}

fn line_hash_exec(line: &Vec<char>, asset: &[char]) -> (r: Option<String>)
    ensures
        match r {
            Some(h) => line_hash(line@, asset@) == Some(h@),
            None => line_hash(line@, asset@) is None,
        },
{
    let mut i: usize = 0;
    while i < line.len() && line[i] != ' '
        invariant
            i <= line@.len(),
            forall|j: int| 0 <= j < i ==> line@[j] != ' ',
        decreases line@.len() - i,
    {
        i = i + 1;
    }
    if i == line.len() {
        assert(!line@.contains(' '));
        return None;
    }
    proof {
        let c = choose|c: int| 0 <= c < line@.len() && line@[c] == ' ' && forall|j: int| 0 <= j < c ==> line@[j] != ' ';
        if c < i {
        } else if c > i {
            assert(line@[i as int] == ' ');
        }
    }
    let h = trim_chars(vstd::slice::slice_subrange(line.as_slice(), 0, i));
    let f = trim_chars(vstd::slice::slice_subrange(line.as_slice(), i + 1, line.len()));
    assert(line@.subrange(0, i as int) == line@.take(i as int));
    assert(line@.subrange(i + 1, line@.len() as int) == line@.skip(i + 1));
    let name = strip_stars_exec(f.as_slice());
    let hs = string_of(h.as_slice());
    if crate::text::chars_eq(name.as_slice(), asset) && hs.as_str().len() == 64 {
        Some(to_ascii_lowercase(h.as_slice()))
    } else {
        None
    }
}

/// Reads the expected SHA-256 of `asset_name` from a checksum file.
pub fn parse_expected_checksum(checksum_text: &str, asset_name: &str) -> (r: Option<String>)
    ensures
        match r {
            Some(h) => expected_checksum(checksum_text@, asset_name@) == Some(h@),
            None => expected_checksum(checksum_text@, asset_name@) is None,
        },
{
    let t = trim_chars(chars_of(checksum_text).as_slice());
    let ts = string_of(t.as_slice());
    if ts.as_str().len() == 64 && all_hex(t.as_slice()) {
        return Some(to_ascii_lowercase(t.as_slice()));
    }
    let a = chars_of(asset_name);
    let ls = lines_of(t.as_slice());
    let ghost v = views(ls@);
    let mut i: usize = 0;
    assert(v.skip(0) == v);
    while i < ls.len()
        invariant
            i <= ls@.len(),
            v == views(ls@),
            v == lines(trim(checksum_text@)),
            a@ == asset_name@,
            !(utf8_len(trim(checksum_text@)) == 64 && forall|k: int| 0 <= k < trim(checksum_text@).len() ==> is_hex_char(#[trigger] trim(checksum_text@)[k])),
            first_line_hash(v, asset_name@) == first_line_hash(v.skip(i as int), asset_name@),
        decreases ls@.len() - i,
    {
        assert(v.skip(i as int)[0] == ls@[i as int]@);
        assert(v.skip(i as int).drop_first() == v.skip(i as int + 1));
        match line_hash_exec(&ls[i], a.as_slice()) {
            Some(h) => {
                assert(first_line_hash(v.skip(i as int), asset_name@) == Some(h@));
                return Some(h);
            },
            None => {},
        }
        i = i + 1;
    }
    None
}

/// Checks a download against the expected hash. A mismatch is an error, and then
/// the caller writes nothing; with no expected hash the download passes unchecked.
/// Returns the download's hash.
pub fn verify_download(bytes: &[u8], expected: &Option<String>, asset_name: &str, tag: &str) -> (r: Result<String, MazeSshError>)
    ensures
        match *expected {
            None => r matches Ok(h) && h@ == hex_lower(sha256(bytes@)),
            Some(e) => if e@ == hex_lower(sha256(bytes@)) {
                r matches Ok(h) && h@ == e@
            } else {
                r matches Err(MazeSshError::BridgeError(m)) && m@ == "Integrity check FAILED for "@ + asset_name@
                    + " "@ + tag@ + ": expected SHA256 "@ + e@ + ", got "@ + hex_lower(sha256(bytes@))
                    + ". The file has NOT been saved. This may indicate a supply-chain attack."@
            },
        },
{
    let actual = sha256_hex(bytes);
    match expected {
        Some(e) => {
            if actual != *e {
                let mut m = "Integrity check FAILED for ".to_string();
                m.append(asset_name);
                m.append(" ");
                m.append(tag);
                m.append(": expected SHA256 ");
                m.append(e.as_str());
                m.append(", got ");
                m.append(actual.as_str());
                m.append(". The file has NOT been saved. This may indicate a supply-chain attack.");
                return Err(MazeSshError::BridgeError(m));
            }
        },
        None => {},
    }
    Ok(actual)
}

/// The download progress to report after `downloaded` of `total` bytes, when it has
/// moved at least 5 points past `last_percent`; it stays below 100 until done.
pub fn progress_step(downloaded: u64, total: u64, last_percent: u8) -> (r: Option<u8>)
    requires
        downloaded <= u64::MAX / 100,
    ensures
        total == 0 ==> r is None,
        total > 0 ==> ({
            let q: int = (downloaded as int * 100) / (total as int);
            let p: int = if q < 99 {
                q
            } else {
                99
            };
            if p >= last_percent + 5 {
                r == Some(p as u8)
            } else {
                r is None
            }
        }),
{
    if total == 0 {
        return None;
    }
    let raw = downloaded * 100 / total;
    let p: u8 = if raw < 99 {
        raw as u8
    } else {
        99
    };
    if p as u16 >= last_percent as u16 + 5 {
        Some(p)
    } else {
        None
    }
}

/// An asset of a GitHub release, as plain values.
#[derive(Debug, Clone)]
pub struct ReleaseAsset {
    pub name: Option<String>,
    pub browser_download_url: Option<String>,
}

/// What a release lookup yields for one binary.
#[derive(Debug, Clone)]
pub struct ReleaseInfo {
    pub tag: String,
    pub download_url: String,
    /// URL of a companion checksum file, if the release has one
    pub checksum_url: Option<String>,
}

/// Whether the asset is named `an` (or, with `checksum`, is a checksum file for it).
pub open spec fn named(a: ReleaseAsset, an: Seq<char>, checksum: bool) -> bool {
    match a.name {
        Some(n) => if checksum {
            is_checksum_name(n@, an)
        } else {
            n@ == an
        },
        None => false,
    }
}

/// Index of the first such asset.
pub open spec fn first_asset(assets: Seq<ReleaseAsset>, an: Seq<char>, checksum: bool) -> Option<int> {
    if exists|i: int| 0 <= i < assets.len() && named(#[trigger] assets[i], an, checksum) {
        Some(choose|i: int| 0 <= i < assets.len() && named(#[trigger] assets[i], an, checksum) && forall|j: int| 0 <= j < i ==> !named(assets[j], an, checksum))
    } else {
        None
    }
}

/// The download and checksum URLs that a release's assets give for an asset name.
pub open spec fn release_choice(a: Seq<ReleaseAsset>, an: Seq<char>, info: ReleaseInfo) -> bool {
    &&& first_asset(a, an, false) matches Some(i)
    &&& a[i].browser_download_url == Some(info.download_url)
    &&& info.checksum_url == (match first_asset(a, an, true) {
        Some(j) => a[j].browser_download_url,
        None => None,
    })
}

pub open spec fn is_checksum_name(n: Seq<char>, asset: Seq<char>) -> bool {
    n == asset + ".sha256"@ || n == "sha256sums.txt"@ || n == "checksums.txt"@
}

/// Index of the first asset named `asset_name` (or, with `checksum`, the first
/// checksum file for it).
fn find_asset(assets: &Vec<ReleaseAsset>, asset_name: &str, checksum: bool) -> (r: Option<usize>)
    ensures
        match r {
            Some(i) => i < assets@.len() && first_asset(assets@, asset_name@, checksum) == Some(i as int),
            None => first_asset(assets@, asset_name@, checksum) is None,
        },
{
    let target = asset_name.to_string();
    let mut sum_name = asset_name.to_string();
    sum_name.append(".sha256");
    let mut i: usize = 0;
    while i < assets.len()
        invariant
            i <= assets@.len(),
            target@ == asset_name@,
            sum_name@ == asset_name@ + ".sha256"@,
            forall|j: int| 0 <= j < i ==> !named(#[trigger] assets@[j], asset_name@, checksum),
        decreases assets@.len() - i,
    {
        let hit = match &assets[i].name {
            Some(n) => if checksum {
                *n == sum_name || *n == "sha256sums.txt".to_string() || *n == "checksums.txt".to_string()
            } else {
                *n == target
            },
            None => false,
        };
        assert(hit == named(assets@[i as int], asset_name@, checksum));
        if hit {
            proof {
                lemma_first_asset(assets@, asset_name@, checksum, i as int);
            }
            return Some(i);
        }
        i = i + 1;
    }
    None
}

/// Where to download a binary from, given the release's tag and assets (`None`
/// where the response lacked them): the asset named like the binary's asset, and
/// the first checksum file (`<asset>.sha256`, `sha256sums.txt` or `checksums.txt`).
pub fn release_info(binary: RelayBinary, tag: Option<String>, assets: Option<Vec<ReleaseAsset>>) -> (r: Result<ReleaseInfo, MazeSshError>)
    ensures
        match tag {
            None => r matches Err(MazeSshError::BridgeError(m)) && m@ == "No tag_name in GitHub response"@,
            Some(t) => match assets {
                None => r matches Err(MazeSshError::BridgeError(m)) && m@ == "No assets in GitHub response"@,
                Some(a) => if (first_asset(a@, crate::provider::binary_filename(binary), false) matches Some(i)
                    && a@[i].browser_download_url is Some) {
                    r matches Ok(info) && info.tag@ == t@ && release_choice(a@, crate::provider::binary_filename(binary), info)
                } else {
                    r matches Err(MazeSshError::BridgeError(m)) && m@ == "Asset '"@
                        + crate::provider::binary_filename(binary) + "' not found in release "@ + t@
                },
            },
        },
{
    let tag = match tag {
        Some(t) => t,
        None => return Err(MazeSshError::BridgeError("No tag_name in GitHub response".to_string())),
    };
    let assets = match assets {
        Some(a) => a,
        None => return Err(MazeSshError::BridgeError("No assets in GitHub response".to_string())),
    };
    let asset_name = binary.asset_name();
    let ghost an = crate::provider::binary_filename(binary);
    let download = find_asset(&assets, asset_name, false);
    let checksum = find_asset(&assets, asset_name, true);
    let download_url = match download {
        Some(d) => match &assets[d].browser_download_url {
            Some(u) => u.clone(),
            None => return Err(asset_missing(asset_name, &tag)),
        },
        None => {
            return Err(asset_missing(asset_name, &tag));
        },
    };
    let checksum_url = match checksum {
        Some(c) => match &assets[c].browser_download_url {
            Some(u) => Some(u.clone()),
            None => None,
        },
        None => None,
    };
    Ok(ReleaseInfo { tag, download_url, checksum_url })
}

proof fn lemma_first_asset(assets: Seq<ReleaseAsset>, an: Seq<char>, checksum: bool, i: int)
    requires
        0 <= i < assets.len(),
        named(assets[i], an, checksum),
        forall|j: int| 0 <= j < i ==> !named(#[trigger] assets[j], an, checksum),
    ensures
        first_asset(assets, an, checksum) == Some(i),
{
    let c = choose|c: int| 0 <= c < assets.len() && named(#[trigger] assets[c], an, checksum) && forall|j: int| 0 <= j < c ==> !named(assets[j], an, checksum);
    if c < i {
    } else if c > i {
        assert(!named(assets[i], an, checksum));
    }
}

fn asset_missing(asset_name: &str, tag: &String) -> (e: MazeSshError)
    ensures
        e matches MazeSshError::BridgeError(m) && m@ == "Asset '"@ + asset_name@ + "' not found in release "@ + tag@,
{
    let mut m = "Asset '".to_string();
    m.append(asset_name);
    m.append("' not found in release ");
    m.append(tag.as_str());
    MazeSshError::BridgeError(m)
}

/// The update status of one relay binary.
#[derive(Debug, Clone)]
pub struct BinaryUpdateStatus {
    pub binary: String,
    pub installed_version: Option<String>,
    pub latest_version: Option<String>,
    pub update_available: bool,
}

/// An update is available when both versions are known and differ.
pub fn update_status(binary: RelayBinary, installed: &Option<String>, latest: &Option<String>) -> (r: BinaryUpdateStatus)
    ensures
        r.binary@ == binary_version_key(binary),
        r.installed_version == *installed,
        r.latest_version == *latest,
        r.update_available == (match (*installed, *latest) {
            (Some(i), Some(l)) => i@ != l@,
            _ => false,
        }),
{
    let update_available = match (installed, latest) {
        (Some(i), Some(l)) => *i != *l,
        _ => false,
    };
    BinaryUpdateStatus {
        binary: binary.version_key().to_string(),
        installed_version: installed.clone(),
        latest_version: latest.clone(),
        update_available,
    }
}

/// Records the installed version of one binary.
pub fn record_version(versions: &mut BinaryVersion, binary: RelayBinary, tag: &str)
    ensures
        binary == RelayBinary::Npiperelay ==> (final(versions).npiperelay matches Some(t) && t@ == tag@)
            && final(versions).wsl_ssh_pageant == old(versions).wsl_ssh_pageant,
        binary == RelayBinary::WslSshPageant ==> (final(versions).wsl_ssh_pageant matches Some(t) && t@ == tag@)
            && final(versions).npiperelay == old(versions).npiperelay,
{
    match binary {
        RelayBinary::Npiperelay => {
            versions.npiperelay = Some(tag.to_string());
        },
        RelayBinary::WslSshPageant => {
            versions.wsl_ssh_pageant = Some(tag.to_string());
        },
    }
}

} // verus!
