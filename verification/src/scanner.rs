//! Finding the SSH key pairs in `~/.ssh`: which files are private keys with a
//! public half, and what the public key says of itself. Listing the directory and
//! reading the files is the caller's.
use vstd::prelude::*;

use crate::keys::{piece, splitn};
use crate::pipes::{lemma_lex_total, lemma_lex_trans, lex_le, sorted};
use crate::profile::DetectedKey;
use crate::text::{chars_of, replace_all, replace_all_str, string_of, trim, trim_chars};

verus! {

broadcast use {vstd::seq_lib::to_multiset_insert, vstd::seq_lib::to_multiset_build};

/// (key type without its "ssh-" parts, comment) of a public key file's text:
/// "unknown" and no comment when it could not be read.
pub open spec fn public_key_parts(content: Option<Seq<char>>) -> (Seq<char>, Seq<char>) {
    match content {
        None => ("unknown"@, Seq::empty()),
        Some(c) => {
            let ps = splitn(trim(c), ' ', 3);
            (replace_all(piece(ps, 0), "ssh-"@, Seq::empty()), piece(ps, 2))
        },
    }
}

/// Reads a public key file's text "type key comment".
pub fn parse_public_key(content: Option<&str>) -> (r: (String, String))
    ensures
        (r.0@, r.1@) == public_key_parts(match content {
            Some(c) => Some(c@),
            None => None,
        }),
{
    match content {
        None => ("unknown".to_string(), String::new()),
        Some(c) => {
            let t = string_of(trim_chars(chars_of(c).as_slice()).as_slice());
            let (first, third) = crate::keys::first_and_third_piece(t.as_str());
            let empty = String::new();
            proof {
                assert(empty@ == Seq::<char>::empty());
            }
            (replace_all_str(first.as_str(), "ssh-", empty.as_str()), third)
        },
    }
}

/// What was found out about one entry of `~/.ssh`.
#[derive(Debug, Clone)]
pub struct SshDirEntry {
    pub path: String,
    pub file_name: String,
    /// The path's extension, if it has one
    pub extension: Option<String>,
    pub is_dir: bool,
    /// The path of the public half (`<path>.pub`) and whether it exists
    pub public_path: String,
    pub public_exists: bool,
    /// The public half's text, when it exists and could be read
    pub public_content: Option<String>,
}

/// Files in `~/.ssh` that are not keys.
pub open spec fn known_non_key(name: Seq<char>) -> bool {
    name == "known_hosts"@ || name == "known_hosts.old"@ || name == "config"@ || name == "authorized_keys"@
        || name == "environment"@
}

/// An entry is a key pair: a file, not a `.pub`, not a known non-key file, with its
/// public half present.
pub open spec fn is_key_pair(e: SshDirEntry) -> bool {
    &&& !e.is_dir
    &&& !(e.extension matches Some(x) && x@ == "pub"@)
    &&& !known_non_key(e.file_name@)
    &&& e.public_exists
}

pub open spec fn detected_view(k: DetectedKey) -> (Seq<char>, Seq<char>, Seq<char>, Seq<char>) {
    (k.private_key_path@, k.public_key_path@, k.key_type@, k.comment@)
}

pub open spec fn detected_of(e: SshDirEntry) -> (Seq<char>, Seq<char>, Seq<char>, Seq<char>) {
    let (t, c) = public_key_parts(match e.public_content {
        Some(s) => Some(s@),
        None => None,
    });
    (e.path@, e.public_path@, t, c)
}

/// The key pairs among the entries, in entry order.
pub open spec fn key_pairs(es: Seq<SshDirEntry>) -> Seq<(Seq<char>, Seq<char>, Seq<char>, Seq<char>)>
    decreases es.len(),
{
    if es.len() == 0 {
        Seq::empty()
    } else if is_key_pair(es.last()) {
        key_pairs(es.drop_last()).push(detected_of(es.last()))
    } else {
        key_pairs(es.drop_last())
    }
}

fn is_known_non_key(name: &str) -> (r: bool)
    ensures
        r == known_non_key(name@),
{
    let n = name.to_string();
    n == "known_hosts".to_string() || n == "known_hosts.old".to_string() || n == "config".to_string()
        || n == "authorized_keys".to_string() || n == "environment".to_string()
}

pub open spec fn paths_of(v: Seq<DetectedKey>) -> Seq<Seq<char>> {
    v.map_values(|k: DetectedKey| k.private_key_path@)
}

/// The SSH key pairs among the entries of `~/.ssh`, sorted by private key path.
pub fn scan_ssh_keys(entries: &Vec<SshDirEntry>) -> (r: Vec<DetectedKey>)
    ensures
        sorted(paths_of(r@)),
        r@.map_values(|k: DetectedKey| detected_view(k)).to_multiset() == key_pairs(entries@).to_multiset(),
{
    let mut out: Vec<DetectedKey> = Vec::new();
    let mut k: usize = 0;
    assert(entries@.take(0) =~= Seq::<SshDirEntry>::empty());
    assert(out@.map_values(|x: DetectedKey| detected_view(x)) =~= Seq::<(Seq<char>, Seq<char>, Seq<char>, Seq<char>)>::empty());
    assert(paths_of(out@) =~= Seq::<Seq<char>>::empty());
    while k < entries.len()
        invariant
            k <= entries@.len(),
            sorted(paths_of(out@)),
            out@.map_values(|x: DetectedKey| detected_view(x)).to_multiset() == key_pairs(entries@.take(k as int)).to_multiset(),
        decreases entries@.len() - k,
    {
        let e = &entries[k];
        assert(entries@.take(k + 1).drop_last() =~= entries@.take(k as int));
        assert(entries@.take(k + 1).last() == *e);
        let ghost before = key_pairs(entries@.take(k as int));
        let pub_chars = chars_of("pub");
        let is_pub = match &e.extension {
            Some(x) => crate::text::chars_eq(chars_of(x.as_str()).as_slice(), pub_chars.as_slice()),
            None => false,
        };
        proof {
            assert(is_pub == (e.extension matches Some(x) && x@ == "pub"@));
        }
        if !e.is_dir && !is_pub && !is_known_non_key(e.file_name.as_str()) && e.public_exists {
            let content: Option<&str> = match &e.public_content {
                Some(s) => Some(s.as_str()),
                None => None,
            };
            let (key_type, comment) = parse_public_key(content);
            let item = DetectedKey {
                private_key_path: e.path.clone(),
                public_key_path: e.public_path.clone(),
                key_type,
                comment,
            };
            assert(detected_view(item) == detected_of(*e));
            assert(key_pairs(entries@.take(k + 1)) == before.push(detected_of(*e)));
            let pc = chars_of(e.path.as_str());
            let ghost d = paths_of(out@);
            let ghost dv = out@.map_values(|x: DetectedKey| detected_view(x));
            let mut j: usize = 0;
            while j < out.len() && crate::pipes::lex_le_chars(chars_of(out[j].private_key_path.as_str()).as_slice(), pc.as_slice())
                invariant
                    j <= out@.len(),
                    d == paths_of(out@),
                    pc@ == e.path@,
                    forall|i: int| 0 <= i < j ==> lex_le(#[trigger] d[i], e.path@),
                decreases out@.len() - j,
            {
                j = j + 1;
            }
            proof {
                assert forall|i: int| j <= i < d.len() implies lex_le(e.path@, #[trigger] d[i]) by {
                    lemma_lex_total(d[j as int], e.path@);
                    if i > j {
                        if lex_le(d[i], e.path@) {
                            lemma_lex_trans(d[j as int], d[i], e.path@);
                        }
                        lemma_lex_total(d[i], e.path@);
                    }
                }
            }
            out.insert(j, item);
            proof {
                let p = paths_of(out@);
                assert(p =~= d.insert(j as int, e.path@));
                assert forall|a: int, b: int| 0 <= a < b < p.len() implies lex_le(#[trigger] p[a], #[trigger] p[b]) by {
                    if b < j {
                    } else if a < j && b == j {
                    } else if a < j && b > j {
                        assert(p[b] == d[b - 1]);
                    } else if a == j {
                        assert(p[b] == d[b - 1]);
                    } else {
                        assert(p[a] == d[a - 1]);
                        assert(p[b] == d[b - 1]);
                    }
                }
                let nv = out@.map_values(|x: DetectedKey| detected_view(x));
                assert(nv =~= dv.insert(j as int, detected_view(item)));
                assert(nv.to_multiset() == dv.to_multiset().insert(detected_view(item)));
                assert(before.push(detected_of(*e)).to_multiset() == before.to_multiset().insert(detected_of(*e)));
            }
        } else {
            assert(key_pairs(entries@.take(k + 1)) == before);
        }
        k = k + 1;
    }
    assert(entries@.take(entries@.len() as int) =~= entries@);
    out
}

} // verus!
