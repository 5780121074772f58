//! Marker-delimited blocks in line-oriented text files (shell profiles, SSH config).
//!
//! A block starts at a line whose trimmed text is the begin marker and ends at the
//! first later line whose trimmed text is the end marker. A begin marker with no end
//! marker after it is ordinary text and is never removed.
use vstd::prelude::*;

use crate::text::{
    chars_eq, chars_of, is_ws, lemma_split_nl_nonempty, lines, lines_of, push_char, push_chars, split_nl, strip_cr,
    trim, trim_chars, trim_end, trim_start, views,
};

verus! {

/// Index of the first line of `ls` whose trimmed text is `m`.
pub open spec fn first_marker(ls: Seq<Seq<char>>, m: Seq<char>) -> Option<nat>
    decreases ls.len(),
{
    if ls.len() == 0 {
        None
    } else if trim(ls[0]) == m {
        Some(0)
    } else {
        match first_marker(ls.drop_first(), m) {
            Some(k) => Some(k + 1),
            None => None,
        }
    }
}

pub proof fn lemma_first_marker(ls: Seq<Seq<char>>, m: Seq<char>)
    ensures
        match first_marker(ls, m) {
            Some(k) => k < ls.len() && trim(ls[k as int]) == m && forall|j: int|
                0 <= j < k ==> trim(#[trigger] ls[j]) != m,
            None => forall|j: int| 0 <= j < ls.len() ==> trim(#[trigger] ls[j]) != m,
        },
    decreases ls.len(),
{
    if ls.len() > 0 {
        lemma_first_marker(ls.drop_first(), m);
        if trim(ls[0]) != m {
            assert forall|j: int| 1 <= j < ls.len() implies ls[j] == ls.drop_first()[j - 1] by {}
        }
    }
}

/// The lines that remain after every complete `begin`..`end` block is removed.
pub open spec fn kept_lines(ls: Seq<Seq<char>>, begin: Seq<char>, end: Seq<char>) -> Seq<Seq<char>>
    decreases ls.len(),
{
    if ls.len() == 0 {
        Seq::empty()
    } else if trim(ls[0]) == begin && first_marker(ls.drop_first(), end) is Some {
        let k = first_marker(ls.drop_first(), end)->0;
        proof {
            lemma_first_marker(ls.drop_first(), end);
        }
        kept_lines(ls.skip(k + 2int), begin, end)
    } else {
        seq![ls[0]] + kept_lines(ls.drop_first(), begin, end)
    }
}

/// Each line followed by a newline.
pub open spec fn join_lines(ls: Seq<Seq<char>>) -> Seq<char>
    decreases ls.len(),
{
    if ls.len() == 0 {
        Seq::empty()
    } else {
        join_lines(ls.drop_last()) + ls.last() + seq!['\n']
    }
}

/// The lines separated by newlines, with none after the last.
pub open spec fn join_sep(ls: Seq<Seq<char>>) -> Seq<char>
    decreases ls.len(),
{
    if ls.len() == 0 {
        Seq::empty()
    } else if ls.len() == 1 {
        ls[0]
    } else {
        join_sep(ls.drop_last()) + seq!['\n'] + ls.last()
    }
}

/// What removing the complete `begin`..`end` blocks of `content` gives.
pub open spec fn without_blocks(content: Seq<char>, begin: Seq<char>, end: Seq<char>) -> Seq<char> {
    join_lines(kept_lines(lines(content), begin, end))
}

/// The first block of `content`, from the first begin line through the first end
/// line at or after it, markers included.
pub open spec fn first_block(ls: Seq<Seq<char>>, begin: Seq<char>, end: Seq<char>) -> Option<Seq<char>> {
    match first_marker(ls, begin) {
        None => None,
        Some(b) => match first_marker(ls.skip(b as int), end) {
            None => None,
            Some(k) => Some(join_sep(ls.subrange(b as int, b + k + 1int))),
        },
    }
}

pub open spec fn shifted(o: Option<nat>, d: int) -> Option<nat> {
    match o {
        Some(x) => Some((x + d) as nat),
        None => None,
    }
}


/// Removal only drops lines: every line that stays was a line of the input.
pub proof fn lemma_kept_lines_come_from_input(ls: Seq<Seq<char>>, begin: Seq<char>, end: Seq<char>)
    ensures
        forall|i: int| 0 <= i < kept_lines(ls, begin, end).len() ==> ls.contains(
            #[trigger] kept_lines(ls, begin, end)[i],
        ),
    decreases ls.len(),
{
    if ls.len() > 0 {
        let rest = ls.drop_first();
        if trim(ls[0]) == begin && first_marker(rest, end) is Some {
            let k = first_marker(rest, end)->0;
            lemma_first_marker(rest, end);
            let tail = ls.skip(k + 2int);
            lemma_kept_lines_come_from_input(tail, begin, end);
            assert forall|i: int| 0 <= i < kept_lines(ls, begin, end).len() implies ls.contains(
                #[trigger] kept_lines(ls, begin, end)[i],
            ) by {
                let x = kept_lines(tail, begin, end)[i];
                let w = choose|w: int| 0 <= w < tail.len() && tail[w] == x;
                assert(ls[w + k + 2] == x);
            }
        } else {
            lemma_kept_lines_come_from_input(rest, begin, end);
            assert forall|i: int| 0 <= i < kept_lines(ls, begin, end).len() implies ls.contains(
                #[trigger] kept_lines(ls, begin, end)[i],
            ) by {
                if i == 0 {
                    assert(ls[0] == kept_lines(ls, begin, end)[0]);
                } else {
                    let x = kept_lines(rest, begin, end)[i - 1];
                    assert(kept_lines(ls, begin, end)[i] == x);
                    let w = choose|w: int| 0 <= w < rest.len() && rest[w] == x;
                    assert(ls[w + 1] == x);
                }
            }
        }
    }
}

/// After removal no complete block is left: no remaining begin line has an end
/// line after it.
pub proof fn lemma_no_complete_block_remains(ls: Seq<Seq<char>>, begin: Seq<char>, end: Seq<char>)
    ensures
        forall|i: int, j: int|
            0 <= i < j < kept_lines(ls, begin, end).len() && trim(
                #[trigger] kept_lines(ls, begin, end)[i],
            ) == begin ==> trim(#[trigger] kept_lines(ls, begin, end)[j]) != end,
    decreases ls.len(),
{
    if ls.len() > 0 {
        let rest = ls.drop_first();
        if trim(ls[0]) == begin && first_marker(rest, end) is Some {
            let k = first_marker(rest, end)->0;
            lemma_first_marker(rest, end);
            lemma_no_complete_block_remains(ls.skip(k + 2int), begin, end);
            assert(kept_lines(ls, begin, end) == kept_lines(ls.skip(k + 2int), begin, end));
        } else {
            let kr = kept_lines(rest, begin, end);
            let kl = kept_lines(ls, begin, end);
            lemma_no_complete_block_remains(rest, begin, end);
            lemma_kept_lines_come_from_input(rest, begin, end);
            lemma_first_marker(rest, end);
            assert(kl == seq![ls[0]] + kr);
            assert forall|i: int, j: int|
                0 <= i < j < kl.len() && trim(#[trigger] kl[i]) == begin implies trim(
                #[trigger] kl[j],
            ) != end by {
                assert(kl[j] == kr[j - 1]);
                if i == 0 {
                    let x = kr[j - 1];
                    assert(rest.contains(x));
                    let w = choose|w: int| 0 <= w < rest.len() && rest[w] == x;
                    assert(trim(rest[w]) != end);
                } else {
                    assert(kl[i] == kr[i - 1]);
                }
            }
        }
    }
}

/// Without an end line, or without a begin line, nothing is removed.
pub proof fn lemma_nothing_removed_without_both_markers(
    ls: Seq<Seq<char>>,
    begin: Seq<char>,
    end: Seq<char>,
)
    requires
        (forall|i: int| 0 <= i < ls.len() ==> trim(#[trigger] ls[i]) != end) || (forall|i: int|
            0 <= i < ls.len() ==> trim(#[trigger] ls[i]) != begin),
    ensures
        kept_lines(ls, begin, end) == ls,
    decreases ls.len(),
{
    if ls.len() > 0 {
        let rest = ls.drop_first();
        lemma_first_marker(rest, end);
        assert forall|i: int| 0 <= i < rest.len() implies rest[i] == ls[i + 1] by {}
        if forall|i: int| 0 <= i < ls.len() ==> trim(#[trigger] ls[i]) != end {
            assert(forall|i: int| 0 <= i < rest.len() ==> trim(#[trigger] rest[i]) != end);
        } else {
            assert(trim(ls[0]) != begin);
            assert(forall|i: int| 0 <= i < rest.len() ==> trim(#[trigger] rest[i]) != begin);
        }
        lemma_nothing_removed_without_both_markers(rest, begin, end);
        assert(seq![ls[0]] + rest == ls);
    }
}

/// Whether the trimmed text of `l` is `m`.
fn is_marker_line(l: &Vec<char>, m: &[char]) -> (r: bool)
    ensures
        r == (trim(l@) == m@),
{
    let t = trim_chars(l.as_slice());
    chars_eq(t.as_slice(), m)
}

/// Index of the first line at or after `from` whose trimmed text is `m`.
fn find_marker(ls: &Vec<Vec<char>>, from: usize, m: &[char]) -> (r: Option<usize>)
    requires
        from <= ls@.len(),
    ensures
        match r {
            Some(j) => from <= j < ls@.len() && first_marker(views(ls@).skip(from as int), m@) == Some(
                (j - from) as nat,
            ),
            None => first_marker(views(ls@).skip(from as int), m@) is None,
        },
{
    let ghost v = views(ls@);
    let mut k: usize = from;
    assert(v.skip(from as int).skip(0) == v.skip(from as int));
    while k < ls.len()
        invariant
            from <= k <= ls@.len(),
            v == views(ls@),
            v.len() == ls@.len(),
            first_marker(v.skip(from as int), m@) == shifted(first_marker(v.skip(k as int), m@), k - from),
        decreases ls@.len() - k,
    {
        assert(v.skip(k as int)[0] == ls@[k as int]@);
        assert(v.skip(k as int).drop_first() == v.skip(k as int + 1));
        if is_marker_line(&ls[k], m) {
            return Some(k);
        }
        k = k + 1;
    }
    assert(v.skip(k as int).len() == 0);
    None
}

/// Removes every complete `begin`..`end` block from `content`. Each line that stays
/// is written with a newline after it; a begin line with no end line after it stays.
pub fn remove_block_between(content: &str, begin: &str, end: &str) -> (r: String)
    ensures
        r@ == without_blocks(content@, begin@, end@),
{
    let b = chars_of(begin);
    let e = chars_of(end);
    let ls = lines_of(chars_of(content).as_slice());
    let ghost v = views(ls@);
    let ghost mut acc: Seq<Seq<char>> = Seq::empty();
    let mut out = String::new();
    let mut i: usize = 0;
    assert(v.skip(0) == v);
    while i < ls.len()
        invariant
            i <= ls@.len(),
            v == views(ls@),
            v.len() == ls@.len(),
            kept_lines(v, b@, e@) == acc + kept_lines(v.skip(i as int), b@, e@),
            out@ == join_lines(acc),
        decreases ls@.len() - i,
    {
        let ghost rest = v.skip(i as int);
        assert(rest[0] == ls@[i as int]@);
        assert(rest.drop_first() == v.skip(i as int + 1));
        let opening = is_marker_line(&ls[i], b.as_slice());
        let found = if opening {
            find_marker(&ls, i + 1, e.as_slice())
        } else {
            None
        };
        match found {
            Some(j) => {
                proof {
                    lemma_first_marker(rest.drop_first(), e@);
                    assert(rest.skip((j - i - 1) + 2) == v.skip(j as int + 1));
                }
                i = j + 1;
            },
            None => {
                push_chars(&mut out, ls[i].as_slice());
                push_char(&mut out, '\n');
                proof {
                    let l = ls@[i as int]@;
                    assert(acc.push(l).drop_last() == acc);
                    assert(acc + kept_lines(rest, b@, e@) == acc.push(l) + kept_lines(
                        v.skip(i as int + 1),
                        b@,
                        e@,
                    ));
                    acc = acc.push(l);
                }
                i = i + 1;
            },
        }
    }
    proof {
        assert(v.skip(i as int).len() == 0);
        assert(acc + Seq::<Seq<char>>::empty() == acc);
    }
    out
}

/// The first `begin`..`end` block of `content`, marker lines included, its lines
/// joined by newlines; `None` when there is no begin line or no end line after it.
#[verifier::spinoff_prover]
#[verifier::rlimit(40)]
pub fn extract_marker_block(content: &str, begin: &str, end: &str) -> (r: Option<String>)
    ensures
        match r {
            Some(s) => first_block(lines(content@), begin@, end@) == Some(s@),
            None => first_block(lines(content@), begin@, end@) is None,
        },
{
    let b = chars_of(begin);
    let e = chars_of(end);
    let ls = lines_of(chars_of(content).as_slice());
    let ghost v = views(ls@);
    assert(v.skip(0) == v);
    let start = match find_marker(&ls, 0, b.as_slice()) {
        Some(x) => x,
        None => return None,
    };
    let stop = match find_marker(&ls, start, e.as_slice()) {
        Some(x) => x,
        None => return None,
    };
    let mut out = String::new();
    push_chars(&mut out, ls[start].as_slice());
    let n: usize = ls.len();
    assert(start < n);
    let mut k: usize = start + 1;
    assert(v.subrange(start as int, start + 1) == seq![v[start as int]]);
    while k <= stop
        invariant
            start < k <= stop + 1,
            stop < ls@.len() <= usize::MAX,
            v == views(ls@),
            v.len() == ls@.len(),
            out@ == join_sep(v.subrange(start as int, k as int)),
        decreases stop + 1 - k,
    {
        push_char(&mut out, '\n');
        push_chars(&mut out, ls[k].as_slice());
        assert(v.subrange(start as int, k + 1).drop_last() == v.subrange(start as int, k as int));
        k = k + 1;
    }
    Some(out)
}

// ── Re-injecting a block ──

/// `cleaned` without trailing whitespace, a newline, then `block`: how a block is
/// (re)injected at the end of a file whose old blocks were removed.
pub open spec fn appended(cleaned: Seq<char>, block: Seq<char>) -> Seq<char> {
    trim_end(cleaned) + seq!['\n'] + block
}

/// A block as injected: a begin line, an end line last, no end line between, and a
/// final newline.
pub open spec fn is_marked_block(block: Seq<char>, begin: Seq<char>, end: Seq<char>) -> bool {
    let ls = lines(block);
    &&& block.len() > 0 && block.last() == '\n'
    &&& ls.len() >= 2
    &&& trim(ls[0]) == begin
    &&& trim(ls.last()) == end
    &&& forall|j: int| 0 < j < ls.len() - 1 ==> trim(#[trigger] ls[j]) != end
}

pub open spec fn no_nl(l: Seq<char>) -> bool {
    forall|i: int| 0 <= i < l.len() ==> l[i] != '\n'
}

pub open spec fn ends_cr(l: Seq<char>) -> bool {
    l.len() > 0 && l.last() == '\r'
}

proof fn lemma_split_nl_concat(u: Seq<char>, v: Seq<char>)
    requires
        u.len() == 0 || u.last() == '\n',
    ensures
        split_nl(u + v) == split_nl(u).drop_last() + split_nl(v),
    decreases v.len(),
{
    lemma_split_nl_nonempty(u);
    if v.len() == 0 {
        assert(u + v =~= u);
        if u.len() > 0 {
            assert(u.drop_last() + seq!['\n'] =~= u);
        }
        assert(split_nl(u).drop_last() + split_nl(v) =~= split_nl(u));
    } else {
        lemma_split_nl_concat(u, v.drop_last());
        lemma_split_nl_nonempty(v.drop_last());
        assert((u + v).drop_last() =~= u + v.drop_last());
        let a = split_nl(u).drop_last();
        let p = split_nl(v.drop_last());
        if v.last() == '\n' {
            assert((a + p).push(Seq::<char>::empty()) =~= a + p.push(Seq::<char>::empty()));
        } else {
            assert((a + p).update((a + p).len() - 1, (a + p).last().push(v.last())) =~= a + p.update(
                p.len() - 1,
                p.last().push(v.last()),
            ));
        }
    }
}

proof fn lemma_lines_concat(u: Seq<char>, v: Seq<char>)
    requires
        u.len() > 0 && u.last() == '\n',
        v.len() > 0 && v.last() == '\n',
    ensures
        lines(u + v) == lines(u) + lines(v),
{
    lemma_split_nl_concat(u, v);
    lemma_split_nl_nonempty(v);
    let a = split_nl(u).drop_last();
    let b = split_nl(v);
    assert((a + b).drop_last() =~= a + b.drop_last());
    assert((a + b.drop_last()).map_values(|l: Seq<char>| strip_cr(l)) =~= a.map_values(|l: Seq<char>| strip_cr(l))
        + b.drop_last().map_values(|l: Seq<char>| strip_cr(l)));
}

proof fn lemma_kept_after_plain(l1: Seq<Seq<char>>, l2: Seq<Seq<char>>, begin: Seq<char>, end: Seq<char>)
    requires
        forall|i: int| 0 <= i < l1.len() ==> trim(#[trigger] l1[i]) != begin,
    ensures
        kept_lines(l1 + l2, begin, end) == l1 + kept_lines(l2, begin, end),
    decreases l1.len(),
{
    if l1.len() > 0 {
        assert((l1 + l2)[0] == l1[0]);
        assert((l1 + l2).drop_first() =~= l1.drop_first() + l2);
        lemma_kept_after_plain(l1.drop_first(), l2, begin, end);
        assert(seq![l1[0]] + (l1.drop_first() + kept_lines(l2, begin, end)) =~= l1 + kept_lines(l2, begin, end));
    } else {
        assert(l1 + l2 =~= l2);
    }
}

proof fn lemma_kept_block(ls: Seq<Seq<char>>, begin: Seq<char>, end: Seq<char>)
    requires
        ls.len() >= 2,
        trim(ls[0]) == begin,
        trim(ls.last()) == end,
        forall|j: int| 0 < j < ls.len() - 1 ==> trim(#[trigger] ls[j]) != end,
    ensures
        kept_lines(ls, begin, end) == Seq::<Seq<char>>::empty(),
{
    let rest = ls.drop_first();
    lemma_first_marker(rest, end);
    let n = rest.len() - 1;
    assert(rest[n] == ls.last());
    assert(first_marker(rest, end) is Some);
    let k = first_marker(rest, end)->0;
    assert(k == n) by {
        if k < n {
            assert(rest[k as int] == ls[k + 1int]);
            assert(trim(ls[k + 1int]) != end);
        }
    }
    assert(ls.skip(k + 2int) =~= Seq::<Seq<char>>::empty());
    assert(kept_lines(Seq::<Seq<char>>::empty(), begin, end) == Seq::<Seq<char>>::empty());
}

proof fn lemma_join_split(t: Seq<char>)
    ensures
        join_lines(split_nl(t)) == t + seq!['\n'],
    decreases t.len(),
{
    lemma_split_nl_nonempty(t);
    if t.len() == 0 {
        assert(split_nl(t) == seq![Seq::<char>::empty()]);
        assert(split_nl(t).drop_last() =~= Seq::<Seq<char>>::empty());
        assert(join_lines(Seq::<Seq<char>>::empty()) == Seq::<char>::empty());
        assert(Seq::<char>::empty() + Seq::<char>::empty() + seq!['\n'] =~= t + seq!['\n']);
    } else {
        lemma_join_split(t.drop_last());
        let p = split_nl(t.drop_last());
        lemma_split_nl_nonempty(t.drop_last());
        let c = t.last();
        assert(t.drop_last().push(c) =~= t);
        if c == '\n' {
            let q = p.push(Seq::<char>::empty());
            assert(q.drop_last() =~= p);
            assert(join_lines(q) == join_lines(p) + Seq::<char>::empty() + seq!['\n']);
            assert(t.drop_last() + seq!['\n'] + Seq::<char>::empty() + seq!['\n'] =~= t + seq!['\n']);
        } else {
            let q = p.update(p.len() - 1, p.last().push(c));
            let x = join_lines(p.drop_last());
            assert(q.len() == p.len());
            assert(q.drop_last() =~= p.drop_last());
            assert(q.last() == p.last().push(c));
            assert(join_lines(q) == x + q.last() + seq!['\n']);
            assert(join_lines(p) == x + p.last() + seq!['\n']);
            assert(x + p.last() =~= t.drop_last()) by {
                assert((x + p.last() + seq!['\n']).drop_last() =~= x + p.last());
                assert((t.drop_last() + seq!['\n']).drop_last() =~= t.drop_last());
            }
            assert(x + p.last().push(c) =~= (x + p.last()).push(c));
            assert(x + p.last().push(c) + seq!['\n'] =~= t + seq!['\n']);
        }
    }
}

proof fn lemma_split_no_nl(l: Seq<char>)
    requires
        no_nl(l),
    ensures
        split_nl(l) == seq![l],
    decreases l.len(),
{
    if l.len() > 0 {
        assert(no_nl(l.drop_last())) by {
            assert forall|i: int| 0 <= i < l.drop_last().len() implies l.drop_last()[i] != '\n' by {
                assert(l.drop_last()[i] == l[i]);
            }
        }
        lemma_split_no_nl(l.drop_last());
        assert(l[l.len() - 1] != '\n');
        assert(l.drop_last().push(l.last()) =~= l);
        assert(seq![l.drop_last()].update(0, l.drop_last().push(l.last())) =~= seq![l]);
    } else {
        assert(l =~= Seq::<char>::empty());
    }
}

proof fn lemma_split_join(k: Seq<Seq<char>>)
    requires
        forall|i: int| 0 <= i < k.len() ==> no_nl(#[trigger] k[i]),
    ensures
        split_nl(join_lines(k)) == k.push(Seq::<char>::empty()),
    decreases k.len(),
{
    if k.len() == 0 {
        assert(split_nl(Seq::<char>::empty()) =~= seq![Seq::<char>::empty()]);
    } else {
        let a = join_lines(k.drop_last());
        let l = k.last();
        lemma_split_join(k.drop_last());
        assert(a.len() == 0 || a.last() == '\n') by {
            if k.drop_last().len() > 0 {
                assert(a == join_lines(k.drop_last().drop_last()) + k.drop_last().last() + seq!['\n']);
            }
        }
        assert(join_lines(k) =~= a + (l + seq!['\n']));
        lemma_split_nl_concat(a, l + seq!['\n']);
        lemma_split_no_nl(l);
        assert((l + seq!['\n']).drop_last() =~= l);
        assert(split_nl(l + seq!['\n']) == seq![l].push(Seq::<char>::empty()));
        assert(k.drop_last().push(Seq::<char>::empty()).drop_last() + seq![l].push(Seq::<char>::empty()) =~= k.push(
            Seq::<char>::empty(),
        ));
    }
}

proof fn lemma_split_nl_pieces(s: Seq<char>)
    ensures
        forall|i: int| 0 <= i < split_nl(s).len() ==> no_nl(#[trigger] split_nl(s)[i]),
    decreases s.len(),
{
    lemma_split_nl_nonempty(s);
    if s.len() > 0 {
        lemma_split_nl_pieces(s.drop_last());
        lemma_split_nl_nonempty(s.drop_last());
        let p = split_nl(s.drop_last());
        if s.last() != '\n' {
            assert forall|i: int| 0 <= i < split_nl(s).len() implies no_nl(#[trigger] split_nl(s)[i]) by {
                if i == p.len() - 1 {
                    assert(no_nl(p[i]));
                }
            }
        }
    }
}

proof fn lemma_lines_no_nl(s: Seq<char>)
    ensures
        forall|i: int| 0 <= i < lines(s).len() ==> no_nl(#[trigger] lines(s)[i]),
{
    lemma_split_nl_pieces(s);
    lemma_split_nl_nonempty(s);
    let p = split_nl(s);
    assert forall|i: int| 0 <= i < lines(s).len() implies no_nl(#[trigger] lines(s)[i]) by {
        if i < p.len() - 1 {
            assert(no_nl(p[i]));
            assert(p.drop_last()[i] == p[i]);
        } else {
            assert(no_nl(p[p.len() - 1]));
        }
    }
}

proof fn lemma_trim_start_push(l: Seq<char>, c: char)
    ensures
        trim_start(l.push(c)) == if trim_start(l).len() > 0 {
            trim_start(l).push(c)
        } else {
            trim_start(seq![c])
        },
    decreases l.len(),
{
    if l.len() == 0 {
        assert(l.push(c) =~= seq![c]);
    } else if is_ws(l[0]) {
        assert(l.push(c).drop_first() =~= l.drop_first().push(c));
        lemma_trim_start_push(l.drop_first(), c);
    }
}

proof fn lemma_trim_push_ws(l: Seq<char>, c: char)
    requires
        is_ws(c),
    ensures
        trim(l.push(c)) == trim(l),
{
    lemma_trim_start_push(l, c);
    let ts = trim_start(l);
    if ts.len() > 0 {
        let s = ts.push(c);
        assert(s.drop_last() =~= ts);
        assert(trim_end(s) == trim_end(s.drop_last()));
    } else {
        assert(seq![c].drop_first() =~= Seq::<char>::empty());
        assert(trim_start(seq![c]) == trim_start(Seq::<char>::empty()));
        assert(trim_start(Seq::<char>::empty()) == Seq::<char>::empty());
        assert(trim_end(Seq::<char>::empty()) == Seq::<char>::empty());
        assert(ts =~= Seq::<char>::empty());
    }
}

/// Trimming trailing whitespace off a text keeps every line free of the marker.
proof fn lemma_trim_end_keeps_plain(w: Seq<char>, begin: Seq<char>)
    requires
        forall|i: int| 0 <= i < split_nl(w).len() ==> trim(#[trigger] split_nl(w)[i]) != begin,
    ensures
        forall|i: int| 0 <= i < split_nl(trim_end(w)).len() ==> trim(#[trigger] split_nl(trim_end(w))[i]) != begin,
    decreases w.len(),
{
    if w.len() > 0 && is_ws(w.last()) {
        let p = split_nl(w.drop_last());
        lemma_split_nl_nonempty(w.drop_last());
        assert forall|i: int| 0 <= i < p.len() implies trim(#[trigger] p[i]) != begin by {
            if w.last() == '\n' {
                assert(split_nl(w)[i] == p[i]);
            } else if i == p.len() - 1 {
                assert(split_nl(w)[i] == p[i].push(w.last()));
                lemma_trim_push_ws(p[i], w.last());
            } else {
                assert(split_nl(w)[i] == p[i]);
            }
        }
        lemma_trim_end_keeps_plain(w.drop_last(), begin);
        assert(trim_end(w) == trim_end(w.drop_last()));
    } else {
        assert(trim_end(w) == w);
    }
}

proof fn lemma_trim_end_idem(s: Seq<char>)
    ensures
        trim_end(trim_end(s)) == trim_end(s),
    decreases s.len(),
{
    if s.len() > 0 && is_ws(s.last()) {
        lemma_trim_end_idem(s.drop_last());
    }
}

proof fn lemma_trim_strip_cr(l: Seq<char>)
    ensures
        trim(strip_cr(l)) == trim(l),
{
    if l.len() > 0 && l.last() == '\r' {
        assert(l.drop_last().push('\r') =~= l);
        lemma_trim_push_ws(l.drop_last(), '\r');
    }
}

proof fn lemma_trim_end_prefix(s: Seq<char>)
    ensures
        exists|n: int| 0 <= n <= s.len() && trim_end(s) == s.take(n) && (s.len() > 0 && !is_ws(s[0]) ==> n >= 1),
    decreases s.len(),
{
    if s.len() > 0 && is_ws(s.last()) {
        lemma_trim_end_prefix(s.drop_last());
        let n = choose|n: int| 0 <= n <= s.drop_last().len() && trim_end(s.drop_last()) == s.drop_last().take(n) && (
        s.drop_last().len() > 0 && !is_ws(s.drop_last()[0]) ==> n >= 1);
        assert(s.drop_last().take(n) =~= s.take(n));
        if s.len() > 0 && !is_ws(s[0]) {
            assert(s.len() >= 2);
            assert(s.drop_last()[0] == s[0]);
        }
    } else {
        assert(s.take(s.len() as int) =~= s);
    }
}

proof fn lemma_trim_start_suffix(s: Seq<char>)
    ensures
        exists|n: int| 0 <= n <= s.len() && trim_start(s) == s.skip(n),
    decreases s.len(),
{
    if s.len() > 0 && is_ws(s[0]) {
        lemma_trim_start_suffix(s.drop_first());
        let n = choose|n: int| 0 <= n <= s.drop_first().len() && trim_start(s.drop_first()) == s.drop_first().skip(n);
        assert(s.drop_first().skip(n) =~= s.skip(n + 1));
    } else {
        assert(s.skip(0) =~= s);
    }
}

/// A line that starts and ends with a visible character is its own trimmed text.
pub proof fn lemma_trim_visible_ends(l: Seq<char>)
    requires
        l.len() > 0,
        !is_ws(l[0]),
        !is_ws(l.last()),
    ensures
        trim(l) == l,
{
}

/// The trimmed text of a line that starts with a visible character starts with it.
pub proof fn lemma_trim_keeps_first(l: Seq<char>)
    requires
        l.len() > 0,
        !is_ws(l[0]),
    ensures
        trim(l).len() > 0 && trim(l)[0] == l[0],
{
    lemma_trim_end_prefix(l);
}

/// Every character of a line's trimmed text is a character of the line.
pub proof fn lemma_trim_chars_from(l: Seq<char>)
    ensures
        forall|i: int| 0 <= i < trim(l).len() ==> l.contains(#[trigger] trim(l)[i]),
{
    lemma_trim_start_suffix(l);
    let n = choose|n: int| 0 <= n <= l.len() && trim_start(l) == l.skip(n);
    lemma_trim_end_prefix(trim_start(l));
    let m = choose|m: int| 0 <= m <= trim_start(l).len() && trim_end(trim_start(l)) == trim_start(l).take(m) && (
    trim_start(l).len() > 0 && !is_ws(trim_start(l)[0]) ==> m >= 1);
    assert forall|i: int| 0 <= i < trim(l).len() implies l.contains(#[trigger] trim(l)[i]) by {
        assert(trim(l)[i] == l[n + i]);
    }
}

/// Joining one more line adds it and a newline.
pub proof fn lemma_join_push(k: Seq<Seq<char>>, x: Seq<char>)
    ensures
        join_lines(k.push(x)) == join_lines(k) + x + seq!['\n'],
{
    assert(k.push(x).drop_last() =~= k);
}

/// Lines joined with a newline after each form a marked block when the first is
/// a begin line, the last an end line, and no line between is an end line.
pub proof fn lemma_joined_block_is_marked(k: Seq<Seq<char>>, begin: Seq<char>, end: Seq<char>)
    requires
        k.len() >= 2,
        forall|i: int| 0 <= i < k.len() ==> no_nl(#[trigger] k[i]),
        trim(k[0]) == begin,
        trim(k.last()) == end,
        forall|j: int| 0 < j < k.len() - 1 ==> trim(#[trigger] k[j]) != end,
    ensures
        is_marked_block(join_lines(k), begin, end),
{
    let b = join_lines(k);
    lemma_split_join(k);
    assert(b == join_lines(k.drop_last()) + k.last() + seq!['\n']);
    assert(b.len() > 0 && b.last() == '\n');
    let ls = lines(b);
    assert(split_nl(b).drop_last() =~= k);
    assert(ls =~= k.map_values(|l: Seq<char>| strip_cr(l)));
    lemma_trim_strip_cr(k[0]);
    lemma_trim_strip_cr(k.last());
    assert(ls.last() == strip_cr(k.last()));
    assert forall|j: int| 0 < j < ls.len() - 1 implies trim(#[trigger] ls[j]) != end by {
        lemma_trim_strip_cr(k[j]);
    }
}

/// Injecting a block again changes nothing: removing the blocks of a file and
/// appending `block`, done twice, gives what doing it once gave. This holds unless
/// the first pass leaves a begin line with no end line after it (it would pair with
/// the new block's end line), or leaves a line ending in a carriage return (the
/// second pass would read it as a CR LF line ending).
pub proof fn lemma_block_injection_idempotent(content: Seq<char>, begin: Seq<char>, end: Seq<char>, block: Seq<char>)
    requires
        begin.len() > 0,
        is_marked_block(block, begin, end),
        forall|i: int| 0 <= i < kept_lines(lines(content), begin, end).len() ==> trim(
            #[trigger] kept_lines(lines(content), begin, end)[i],
        ) != begin,
        forall|i: int| 0 <= i < split_nl(trim_end(without_blocks(content, begin, end))).len() ==> !ends_cr(
            #[trigger] split_nl(trim_end(without_blocks(content, begin, end)))[i],
        ),
    ensures
        appended(without_blocks(appended(without_blocks(content, begin, end), block), begin, end), block)
            == appended(without_blocks(content, begin, end), block),
{
    let k = kept_lines(lines(content), begin, end);
    let c = without_blocks(content, begin, end);
    let s = trim_end(c);
    let u = s + seq!['\n'];
    let y = appended(c, block);
    assert(y =~= u + block);
    lemma_lines_concat(u, block);
    // the lines of the cleaned text, newline added
    assert(u.drop_last() =~= s);
    lemma_split_nl_nonempty(s);
    assert(split_nl(u) == split_nl(s).push(Seq::<char>::empty()));
    assert(split_nl(u).drop_last() =~= split_nl(s));
    assert(lines(u) =~= split_nl(s)) by {
        assert forall|i: int| 0 <= i < split_nl(s).len() implies strip_cr(split_nl(s)[i]) == split_nl(s)[i] by {
            assert(!ends_cr(split_nl(s)[i]));
        }
    }
    // no line of it is a begin line
    lemma_kept_lines_come_from_input(lines(content), begin, end);
    lemma_lines_no_nl(content);
    assert forall|i: int| 0 <= i < k.len() implies no_nl(#[trigger] k[i]) by {
        let w = choose|w: int| 0 <= w < lines(content).len() && lines(content)[w] == k[i];
        assert(no_nl(lines(content)[w]));
    }
    lemma_split_join(k);
    assert forall|i: int| 0 <= i < split_nl(c).len() implies trim(#[trigger] split_nl(c)[i]) != begin by {
        if i < k.len() {
            assert(split_nl(c)[i] == k[i]);
        } else {
            assert(split_nl(c)[i] == Seq::<char>::empty());
            assert(trim_start(Seq::<char>::empty()) == Seq::<char>::empty());
        }
    }
    lemma_trim_end_keeps_plain(c, begin);
    // the block's lines are all removed, the rest is kept
    lemma_kept_after_plain(split_nl(s), lines(block), begin, end);
    lemma_kept_block(lines(block), begin, end);
    assert(kept_lines(lines(y), begin, end) =~= split_nl(s));
    lemma_join_split(s);
    assert(trim_end(u) == trim_end(s)) by {
        assert(u.drop_last() =~= s);
        assert(is_ws(u.last()));
    }
    lemma_trim_end_idem(c);
}

} // verus!
