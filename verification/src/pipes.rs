//! Finding the Windows named pipes that look like SSH agents, from the JSON that
//! PowerShell lists them with. Running PowerShell is the caller's.
use vstd::prelude::*;

use crate::provider::NamedPipeEntry;
use crate::text::{
    chars_of, contains_sub, lowercase, str_contains, to_lowercase, trim, trim_chars, string_of,
};

verus! {

broadcast use {vstd::seq_lib::to_multiset_insert, vstd::seq_lib::to_multiset_build};

/// What `serde_json::from_str::<Vec<String>>` reads from `text`, if it is a JSON
/// array of strings.
pub uninterp spec fn json_string_array(text: Seq<char>) -> Option<Seq<Seq<char>>>;

/// What `serde_json::from_str::<String>` reads from `text`, if it is a JSON string.
pub uninterp spec fn json_string(text: Seq<char>) -> Option<Seq<char>>;

pub open spec fn opt_strings(o: Option<Vec<String>>) -> Option<Seq<Seq<char>>> {
    match o {
        Some(v) => Some(v@.map_values(|s: String| s@)),
        None => None,
    }
}

pub open spec fn opt_string(o: Option<String>) -> Option<Seq<char>> {
    match o {
        Some(s) => Some(s@),
        None => None,
    }
}

/// `serde_json::from_str::<Vec<String>>`, its error dropped.
#[verifier::external_body]
fn parse_json_strings(text: &str) -> (r: Option<Vec<String>>)
    ensures
        opt_strings(r) == json_string_array(text@),
{
    serde_json::from_str::<Vec<String>>(text).ok()
}

/// `serde_json::from_str::<String>`, its error dropped.
#[verifier::external_body]
fn parse_json_string(text: &str) -> (r: Option<String>)
    ensures
        opt_string(r) == json_string(text@),
{
    serde_json::from_str::<String>(text).ok()
}

/// The PowerShell script that lists the pipe names as JSON.
pub fn pipe_listing_script() -> (r: &'static str)
    ensures
        r@ == "Get-ChildItem -Path '\\\\.\\pipe\\' | Select-Object -ExpandProperty Name | ConvertTo-Json -Compress"@,
{
    "Get-ChildItem -Path '\\\\.\\pipe\\' | Select-Object -ExpandProperty Name | ConvertTo-Json -Compress"
}

/// The pipe names in PowerShell's JSON (trimmed): an array, or a single string
/// for a single pipe; anything else, or JSON that does not read, lists none.
pub open spec fn listed_names(t: Seq<char>) -> Seq<Seq<char>> {
    if t.len() == 0 {
        Seq::empty()
    } else if t[0] == '[' {
        match json_string_array(t) {
            Some(v) => v,
            None => Seq::empty(),
        }
    } else if t[0] == '"' {
        match json_string(t) {
            Some(s) => seq![s],
            None => Seq::empty(),
        }
    } else {
        Seq::empty()
    }
}

/// A pipe whose name, lower-cased, mentions "ssh", "agent" or "key".
pub open spec fn relevant_pipe(name: Seq<char>) -> bool {
    let l = lowercase(name);
    contains_sub(l, "ssh"@) || contains_sub(l, "agent"@) || contains_sub(l, "key"@)
}

/// The relevant names, in order.
pub open spec fn relevant_names(ns: Seq<Seq<char>>) -> Seq<Seq<char>>
    decreases ns.len(),
{
    if ns.len() == 0 {
        Seq::empty()
    } else if relevant_pipe(ns.last()) {
        relevant_names(ns.drop_last()).push(ns.last())
    } else {
        relevant_names(ns.drop_last())
    }
}

/// Lexicographic order of character sequences (the order of `String`'s `cmp`,
/// since UTF-8 keeps the order of code points).
pub open spec fn lex_le(a: Seq<char>, b: Seq<char>) -> bool
    decreases a.len(),
{
    if a.len() == 0 {
        true
    } else if b.len() == 0 {
        false
    } else if a[0] < b[0] {
        true
    } else if a[0] > b[0] {
        false
    } else {
        lex_le(a.drop_first(), b.drop_first())
    }
}

pub proof fn lemma_lex_total(a: Seq<char>, b: Seq<char>)
    ensures
        lex_le(a, b) || lex_le(b, a),
    decreases a.len(),
{
    if a.len() > 0 && b.len() > 0 && a[0] == b[0] {
        lemma_lex_total(a.drop_first(), b.drop_first());
    }
}

pub proof fn lemma_lex_trans(a: Seq<char>, b: Seq<char>, c: Seq<char>)
    requires
        lex_le(a, b),
        lex_le(b, c),
    ensures
        lex_le(a, c),
    decreases a.len(),
{
    if a.len() > 0 && b.len() > 0 && c.len() > 0 && a[0] == b[0] && b[0] == c[0] {
        lemma_lex_trans(a.drop_first(), b.drop_first(), c.drop_first());
    }
}

pub open spec fn sorted(s: Seq<Seq<char>>) -> bool {
    forall|i: int, j: int| 0 <= i < j < s.len() ==> lex_le(#[trigger] s[i], #[trigger] s[j])
}

pub(crate) fn lex_le_chars(a: &[char], b: &[char]) -> (r: bool)
    ensures
        r == lex_le(a@, b@),
{
    let mut i: usize = 0;
    assert(a@.skip(0) =~= a@);
    assert(b@.skip(0) =~= b@);
    while i < a.len() && i < b.len() && a[i] == b[i]
        invariant
            i <= a@.len(),
            i <= b@.len(),
            lex_le(a@, b@) == lex_le(a@.skip(i as int), b@.skip(i as int)),
        decreases a@.len() - i,
    {
        assert(a@.skip(i as int).drop_first() =~= a@.skip(i + 1));
        assert(b@.skip(i as int).drop_first() =~= b@.skip(i + 1));
        i = i + 1;
    }
    if i == a.len() {
        return true;
    }
    if i == b.len() {
        return false;
    }
    assert(a@.skip(i as int)[0] == a@[i as int]);
    assert(b@.skip(i as int)[0] == b@[i as int]);
    a[i] < b[i]
}

fn is_relevant_pipe(name: &str) -> (r: bool)
    ensures
        r == relevant_pipe(name@),
{
    let l = to_lowercase(name);
    str_contains(l.as_str(), "ssh") || str_contains(l.as_str(), "agent") || str_contains(l.as_str(), "key")
}

pub open spec fn displays(v: Seq<NamedPipeEntry>) -> Seq<Seq<char>> {
    v.map_values(|e: NamedPipeEntry| e.display@)
}

/// The entries of the named pipes PowerShell listed (`None` when the listing
/// failed): those that look like SSH agents, with their full paths, sorted by name.
pub fn scan_named_pipes(stdout: Option<String>) -> (r: Vec<NamedPipeEntry>)
    ensures
        sorted(displays(r@)),
        displays(r@).to_multiset() == (match stdout {
            Some(s) => relevant_names(listed_names(trim(s@))),
            None => Seq::empty(),
        }).to_multiset(),
        forall|i: int| 0 <= i < r@.len() ==> (#[trigger] r@[i]).path@ == "\\\\.\\pipe\\"@ + r@[i].display@,
{
    let mut out: Vec<NamedPipeEntry> = Vec::new();
    let text = match stdout {
        None => {
            assert(displays(out@) =~= Seq::<Seq<char>>::empty());
            return out;
        },
        Some(s) => s,
    };
    let t = string_of(trim_chars(chars_of(text.as_str()).as_slice()).as_slice());
    let tc = chars_of(t.as_str());
    let names: Vec<String> = if tc.len() == 0 {
        Vec::new()
    } else if tc[0] == '[' {
        match parse_json_strings(t.as_str()) {
            Some(v) => v,
            None => Vec::new(),
        }
    } else if tc[0] == '"' {
        match parse_json_string(t.as_str()) {
            Some(s) => {
                let mut v: Vec<String> = Vec::new();
                v.push(s);
                v
            },
            None => Vec::new(),
        }
    } else {
        Vec::new()
    };
    let ghost ns = names@.map_values(|s: String| s@);
    assert(ns =~= listed_names(trim(text@)));
    let mut k: usize = 0;
    assert(ns.take(0) =~= Seq::<Seq<char>>::empty());
    assert(displays(out@) =~= Seq::<Seq<char>>::empty());
    while k < names.len()
        invariant
            k <= names@.len(),
            ns == names@.map_values(|s: String| s@),
            sorted(displays(out@)),
            displays(out@).to_multiset() == relevant_names(ns.take(k as int)).to_multiset(),
            forall|i: int| 0 <= i < out@.len() ==> (#[trigger] out@[i]).path@ == "\\\\.\\pipe\\"@ + out@[i].display@,
        decreases names@.len() - k,
    {
        let name = &names[k];
        assert(ns.take(k + 1).drop_last() =~= ns.take(k as int));
        assert(ns.take(k + 1).last() == name@);
        let ghost rel_before = relevant_names(ns.take(k as int));
        if is_relevant_pipe(name.as_str()) {
            assert(relevant_names(ns.take(k + 1)) == rel_before.push(name@));
            let nc = chars_of(name.as_str());
            let ghost d = displays(out@);
            let mut j: usize = 0;
            while j < out.len() && lex_le_chars(chars_of(out[j].display.as_str()).as_slice(), nc.as_slice())
                invariant
                    j <= out@.len(),
                    d == displays(out@),
                    nc@ == name@,
                    forall|i: int| 0 <= i < j ==> lex_le(#[trigger] d[i], name@),
                decreases out@.len() - j,
            {
                j = j + 1;
            }
            proof {
                // Every entry from `j` on comes after the new name.
                assert forall|i: int| j <= i < d.len() implies lex_le(name@, #[trigger] d[i]) by {
                    lemma_lex_total(d[j as int], name@);
                    if i > j {
                        if lex_le(d[i], name@) {
                            lemma_lex_trans(d[j as int], d[i], name@);
                        }
                        lemma_lex_total(d[i], name@);
                    }
                }
            }
            let mut path = "\\\\.\\pipe\\".to_string();
            path.append(name.as_str());
            let entry = NamedPipeEntry { path, display: name.clone() };
            assert(entry.display@ == name@);
            let ghost prev = out@;
            out.insert(j, entry);
            proof {
                let e = displays(out@);
                assert(e =~= d.insert(j as int, name@));
                assert forall|a: int, b: int| 0 <= a < b < e.len() implies lex_le(#[trigger] e[a], #[trigger] e[b]) by {
                    if b < j {
                    } else if a < j && b == j {
                    } else if a < j && b > j {
                        assert(e[b] == d[b - 1]);
                    } else if a == j {
                        assert(e[b] == d[b - 1]);
                    } else {
                        assert(e[a] == d[a - 1]);
                        assert(e[b] == d[b - 1]);
                    }
                }
                assert forall|i: int| 0 <= i < out@.len() implies (#[trigger] out@[i]).path@ == "\\\\.\\pipe\\"@ + out@[i].display@ by {
                    if i > j {
                        assert(out@[i] == prev[i - 1]);
                    }
                }
                assert(e.to_multiset() == d.to_multiset().insert(name@));
                assert(rel_before.push(name@).to_multiset() == rel_before.to_multiset().insert(name@));
            }
        } else {
            assert(relevant_names(ns.take(k + 1)) == rel_before);
        }
        k = k + 1;
    }
    assert(ns.take(names@.len() as int) =~= ns);
    out
}

} // verus!
