//! Repositories mapped to profiles: finding a repository's mapping and naming it.
use vstd::prelude::*;

use crate::text::{lowercase, string_of, to_lowercase};

verus! {

/// A repository mapped to a profile. The path is held in its (lossy) string form.
#[derive(Debug, Clone)]
pub struct RepoMapping {
    pub id: String,
    pub repo_path: String,
    pub profile_id: String,
}

/// The first mapping whose path equals `path`, ignoring case.
pub open spec fn mapping_for(ms: Seq<RepoMapping>, path: Seq<char>) -> Option<RepoMapping>
    decreases ms.len(),
{
    if ms.len() == 0 {
        None
    } else if lowercase(ms[0].repo_path@) == lowercase(path) {
        Some(ms[0])
    } else {
        mapping_for(ms.drop_first(), path)
    }
}

/// The mapping of a repository root, comparing normalized paths case-insensitively.
/// `repo_path` and the mappings' paths are expected in normalized form.
pub fn lookup_mapping<'a>(repo_path: &str, mappings: &'a [RepoMapping]) -> (r: Option<&'a RepoMapping>)
    ensures
        match r {
            Some(m) => mapping_for(mappings@, repo_path@) == Some(*m),
            None => mapping_for(mappings@, repo_path@) is None,
        },
{
    let target = to_lowercase(repo_path);
    let mut i: usize = 0;
    assert(mappings@.skip(0) == mappings@);
    while i < mappings.len()
        invariant
            i <= mappings@.len(),
            target@ == lowercase(repo_path@),
            mapping_for(mappings@, repo_path@) == mapping_for(mappings@.skip(i as int), repo_path@),
        decreases mappings@.len() - i,
    {
        assert(mappings@.skip(i as int)[0] == mappings@[i as int]);
        assert(mappings@.skip(i as int).drop_first() == mappings@.skip(i as int + 1));
        let m = to_lowercase(mappings[i].repo_path.as_str());
        if m == target {
            return Some(&mappings[i]);
        }
        i = i + 1;
    }
    None
}

pub open spec fn is_sep(c: char) -> bool {
    c == '/' || c == '\\'
}

/// A Windows drive prefix such as `C:` is not part of the file name.
pub open spec fn without_drive(s: Seq<char>) -> Seq<char> {
    if s.len() >= 2 && (('a' <= s[0] <= 'z') || ('A' <= s[0] <= 'Z')) && s[1] == ':' {
        s.skip(2)
    } else {
        s
    }
}

/// The pieces of `s` between separators (`/` or `\`).
pub open spec fn path_pieces(s: Seq<char>) -> Seq<Seq<char>>
    decreases s.len(),
{
    if s.len() == 0 {
        seq![Seq::<char>::empty()]
    } else {
        let p = path_pieces(s.drop_last());
        if is_sep(s.last()) {
            p.push(Seq::<char>::empty())
        } else {
            p.update(p.len() - 1, p.last().push(s.last()))
        }
    }
}

proof fn lemma_path_pieces_nonempty(s: Seq<char>)
    ensures
        path_pieces(s).len() >= 1,
    decreases s.len(),
{
    if s.len() > 0 {
        lemma_path_pieces_nonempty(s.drop_last());
    }
}

/// A piece that names something: not empty and not `.`.
pub open spec fn named_piece(p: Seq<char>) -> bool {
    p.len() > 0 && p != seq!['.']
}

/// The last piece that names something.
pub open spec fn last_named(ps: Seq<Seq<char>>) -> Option<Seq<char>>
    decreases ps.len(),
{
    if ps.len() == 0 {
        None
    } else if named_piece(ps.last()) {
        Some(ps.last())
    } else {
        last_named(ps.drop_last())
    }
}

/// The last component of a path (`/` and `\` both separate), or "unknown" when there
/// is none or it is `..`.
pub open spec fn repo_name(path: Seq<char>) -> Seq<char> {
    match last_named(path_pieces(without_drive(path))) {
        Some(n) => if n == seq!['.', '.'] {
            "unknown"@
        } else {
            n
        },
        None => "unknown"@,
    }
}

fn is_dotdot(v: &Vec<char>) -> (r: bool)
    ensures
        r == (v@ == seq!['.', '.']),
{
    let r = v.len() == 2 && v[0] == '.' && v[1] == '.';
    if r {
        assert(v@ =~= seq!['.', '.']);
    }
    r
}

/// The repository name of a path: its last component.
pub fn repo_name_from_path(path: &str) -> (r: String)
    ensures
        r@ == repo_name(path@),
{
    let all = crate::text::chars_of(path);
    let start: usize = if all.len() >= 2 && (('a' <= all[0] && all[0] <= 'z') || ('A' <= all[0]
        && all[0] <= 'Z')) && all[1] == ':' {
        2
    } else {
        0
    };
    let s = vstd::slice::slice_subrange(all.as_slice(), start, all.len());
    assert(s@ == without_drive(path@));
    let mut best: Option<Vec<char>> = None;
    let mut cur: Vec<char> = Vec::new();
    let mut i: usize = 0;
    assert(s@.take(0) =~= Seq::<char>::empty());
    while i < s.len()
        invariant
            i <= s@.len(),
            path_pieces(s@.take(i as int)).len() >= 1,
            cur@ == path_pieces(s@.take(i as int)).last(),
            match best {
                Some(b) => last_named(path_pieces(s@.take(i as int)).drop_last()) == Some(b@),
                None => last_named(path_pieces(s@.take(i as int)).drop_last()) is None,
            },
        decreases s@.len() - i,
    {
        let ghost prev = s@.take(i as int);
        let ghost p = path_pieces(prev);
        assert(s@.take(i + 1).drop_last() =~= prev);
        assert(s@.take(i + 1).last() == s@[i as int]);
        proof {
            lemma_path_pieces_nonempty(prev);
        }
        let c = s[i];
        if c == '/' || c == '\\' {
            let named = cur.len() > 0 && !(cur.len() == 1 && cur[0] == '.');
            proof {
                assert(named == named_piece(cur@)) by {
                    if cur@.len() == 1 && cur@[0] == '.' {
                        assert(cur@ =~= seq!['.']);
                    }
                    if cur@ == seq!['.'] {
                        assert(cur@.len() == 1);
                    }
                }
                assert(p.push(Seq::<char>::empty()).drop_last() =~= p);
                assert(p == p.drop_last().push(p.last()));
            }
            if named {
                best = Some(cur);
            }
            cur = Vec::new();
        } else {
            cur.push(c);
            assert(path_pieces(s@.take(i + 1)).drop_last() =~= p.drop_last());
        }
        i = i + 1;
    }
    assert(s@.take(s@.len() as int) =~= s@);
    let ghost ps = path_pieces(s@);
    proof {
        lemma_path_pieces_nonempty(s@);
        assert(ps == ps.drop_last().push(ps.last()));
    }
    let named = cur.len() > 0 && !(cur.len() == 1 && cur[0] == '.');
    proof {
        assert(named == named_piece(cur@)) by {
            if cur@.len() == 1 && cur@[0] == '.' {
                assert(cur@ =~= seq!['.']);
            }
            if cur@ == seq!['.'] {
                assert(cur@.len() == 1);
            }
        }
    }
    let last = if named {
        Some(cur)
    } else {
        best
    };
    match last {
        Some(n) => {
            if is_dotdot(&n) {
                "unknown".to_string()
            } else {
                string_of(n.as_slice())
            }
        },
        None => "unknown".to_string(),
    }
}

/// The repository root of a path: the nearest of the directories probed that holds
/// `.git`. `probes` lists the starting directory and then each parent up to the
/// filesystem root, each with whether it holds `.git`; `None` when none does.
pub fn nearest_git_root(probes: &[(String, bool)]) -> (r: Option<String>)
    ensures
        match r {
            None => forall|i: int| 0 <= i < probes@.len() ==> !(#[trigger] probes@[i]).1,
            Some(root) => exists|i: int|
                0 <= i < probes@.len() && (#[trigger] probes@[i]).1 && root@ == probes@[i].0@
                    && forall|j: int| 0 <= j < i ==> !(#[trigger] probes@[j]).1,
        },
{
    let mut i: usize = 0;
    while i < probes.len()
        invariant
            i <= probes@.len(),
            forall|j: int| 0 <= j < i ==> !(#[trigger] probes@[j]).1,
        decreases probes@.len() - i,
    {
        if probes[i].1 {
            let root = probes[i].0.clone();
            assert(probes@[i as int].1);
            return Some(root);
        }
        i = i + 1;
    }
    None
}

/// A repository's root and its mapping: `None` when the path is in no repository
/// (`git_root` is `None`) or the repository is not mapped.
pub fn detect_and_resolve<'a>(git_root: Option<String>, mappings: &'a [RepoMapping]) -> (r: Option<(String, &'a RepoMapping)>)
    ensures
        match git_root {
            None => r is None,
            Some(root) => match mapping_for(mappings@, root@) {
                None => r is None,
                Some(m) => r matches Some((x, y)) && x == root && *y == m,
            },
        },
{
    let root = match git_root {
        None => return None,
        Some(r) => r,
    };
    match lookup_mapping(root.as_str(), mappings) {
        None => None,
        Some(m) => Some((root, m)),
    }
}

} // verus!
