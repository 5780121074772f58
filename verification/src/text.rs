//! Character-sequence helpers shared by the configuration generators and parsers.
use vstd::prelude::*;
use vstd::slice::{slice_subrange, slice_to_vec};

verus! {

/// `String::push`: appends one character.
#[verifier::external_body]
pub(crate) fn push_char(s: &mut String, c: char)
    ensures
        final(s)@ == old(s)@.push(c),
{
    s.push(c);
}

/// The characters of `s`, in order.
pub fn chars_of(s: &str) -> (v: Vec<char>)
    ensures
        v@ == s@,
{
    let mut v: Vec<char> = Vec::new();
    for c in it: s.chars()
        invariant
            v@ == it.seq().take(it.index() as int),
            it.seq() == s@,
    {
        v.push(c);
    }
    v
}

/// A `String` holding exactly the characters of `v`.
pub fn string_of(v: &[char]) -> (s: String)
    ensures
        s@ == v@,
{
    let mut s = String::new();
    let mut i: usize = 0;
    while i < v.len()
        invariant
            i <= v@.len(),
            s@ == v@.take(i as int),
        decreases v@.len() - i,
    {
        push_char(&mut s, v[i]);
        assert(v@.take(i as int + 1) == v@.take(i as int).push(v@[i as int]));
        i = i + 1;
    }
    assert(v@.take(v@.len() as int) == v@);
    s
}


/// The characters `char::is_whitespace` accepts (the Unicode `White_Space` property).
pub open spec fn is_ws(c: char) -> bool {
    let u = c as u32;
    ||| 0x9 <= u <= 0xD
    ||| u == 0x20
    ||| u == 0x85
    ||| u == 0xA0
    ||| u == 0x1680
    ||| 0x2000 <= u <= 0x200A
    ||| u == 0x2028
    ||| u == 0x2029
    ||| u == 0x202F
    ||| u == 0x205F
    ||| u == 0x3000
}

pub fn char_is_ws(c: char) -> (b: bool)
    ensures
        b == is_ws(c),
{
    let u = c as u32;
    (0x9 <= u && u <= 0xD) || u == 0x20 || u == 0x85 || u == 0xA0 || u == 0x1680 || (0x2000 <= u
        && u <= 0x200A) || u == 0x2028 || u == 0x2029 || u == 0x202F || u == 0x205F || u == 0x3000
}

/// `s` without its leading whitespace.
pub open spec fn trim_start(s: Seq<char>) -> Seq<char>
    decreases s.len(),
{
    if s.len() > 0 && is_ws(s[0]) {
        trim_start(s.drop_first())
    } else {
        s
    }
}

/// `s` without its trailing whitespace.
pub open spec fn trim_end(s: Seq<char>) -> Seq<char>
    decreases s.len(),
{
    if s.len() > 0 && is_ws(s.last()) {
        trim_end(s.drop_last())
    } else {
        s
    }
}

/// `s` without leading and trailing whitespace (`str::trim`).
pub open spec fn trim(s: Seq<char>) -> Seq<char> {
    trim_end(trim_start(s))
}

/// Index of the first non-whitespace character of `s` (its length if there is none).
pub fn trim_start_index(s: &[char]) -> (i: usize)
    ensures
        i <= s@.len(),
        trim_start(s@) == s@.skip(i as int),
{
    let mut i: usize = 0;
    assert(s@.skip(0) == s@);
    while i < s.len() && char_is_ws(s[i])
        invariant
            i <= s@.len(),
            trim_start(s@) == trim_start(s@.skip(i as int)),
        decreases s@.len() - i,
    {
        assert(s@.skip(i as int).drop_first() == s@.skip(i as int + 1));
        i = i + 1;
    }
    i
}

/// One past the index of the last non-whitespace character of `s[..end]`.
pub fn trim_end_index(s: &[char], end: usize) -> (j: usize)
    requires
        end <= s@.len(),
    ensures
        j <= end,
        trim_end(s@.take(end as int)) == s@.take(j as int),
{
    let mut j: usize = end;
    while j > 0 && char_is_ws(s[j - 1])
        invariant
            j <= end <= s@.len(),
            trim_end(s@.take(end as int)) == trim_end(s@.take(j as int)),
        decreases j,
    {
        assert(s@.take(j as int).drop_last() == s@.take(j as int - 1));
        j = j - 1;
    }
    j
}

/// `str::trim`.
pub fn trim_chars(s: &[char]) -> (t: Vec<char>)
    ensures
        t@ == trim(s@),
{
    let i = trim_start_index(s);
    let rest = slice_subrange(s, i, s.len());
    assert(rest@ == s@.skip(i as int));
    let j = trim_end_index(rest, rest.len());
    assert(rest@.take(rest@.len() as int) == rest@);
    slice_to_vec(slice_subrange(rest, 0, j))
}

/// `str::trim_end`.
pub fn trim_end_chars(s: &[char]) -> (t: Vec<char>)
    ensures
        t@ == trim_end(s@),
{
    let j = trim_end_index(s, s.len());
    assert(s@.take(s@.len() as int) == s@);
    slice_to_vec(slice_subrange(s, 0, j))
}

/// Whether `a` and `b` hold the same characters.
pub fn chars_eq(a: &[char], b: &[char]) -> (r: bool)
    ensures
        r == (a@ == b@),
{
    if a.len() != b.len() {
        return false;
    }
    let mut i: usize = 0;
    while i < a.len()
        invariant
            a@.len() == b@.len(),
            i <= a@.len(),
            forall|k: int| 0 <= k < i ==> a@[k] == b@[k],
        decreases a@.len() - i,
    {
        if a[i] != b[i] {
            return false;
        }
        i = i + 1;
    }
    assert(a@ =~= b@);
    true
}

/// Whether `t` occurs in `s` starting at index `i`.
pub open spec fn occurs_at(s: Seq<char>, t: Seq<char>, i: int) -> bool {
    0 <= i && i + t.len() <= s.len() && s.subrange(i, i + t.len()) == t
}

/// Whether `t` occurs in `s` (`str::contains`).
pub open spec fn contains_sub(s: Seq<char>, t: Seq<char>) -> bool {
    exists|i: int| occurs_at(s, t, i)
}

/// Whether `s` begins with `p` (`str::starts_with`).
pub open spec fn starts_with(s: Seq<char>, p: Seq<char>) -> bool {
    p.len() <= s.len() && s.take(p.len() as int) == p
}

/// Whether `s` ends with `p` (`str::ends_with`).
pub open spec fn ends_with(s: Seq<char>, p: Seq<char>) -> bool {
    p.len() <= s.len() && s.skip(s.len() - p.len()) == p
}

pub fn occurs_at_exec(s: &[char], t: &[char], i: usize) -> (r: bool)
    ensures
        r == occurs_at(s@, t@, i as int),
{
    if i > s.len() || t.len() > s.len() - i {
        return false;
    }
    let mut k: usize = 0;
    while k < t.len()
        invariant
            i + t@.len() <= s@.len(),
            s@.len() <= usize::MAX,
            k <= t@.len(),
            forall|m: int| 0 <= m < k ==> s@[i + m] == t@[m],
        decreases t@.len() - k,
    {
        if s[i + k] != t[k] {
            assert(s@.subrange(i as int, i + t@.len())[k as int] != t@[k as int]);
            return false;
        }
        k = k + 1;
    }
    assert(s@.subrange(i as int, i + t@.len()) =~= t@);
    true
}

/// Index of the first occurrence of `t` in `s`.
pub fn find_sub(s: &[char], t: &[char]) -> (r: Option<usize>)
    ensures
        r matches Some(i) ==> occurs_at(s@, t@, i as int) && forall|j: int|
            0 <= j < i ==> !occurs_at(s@, t@, j),
        r is None ==> !contains_sub(s@, t@),
{
    let mut i: usize = 0;
    while i < s.len()
        invariant
            i <= s@.len(),
            forall|j: int| 0 <= j < i ==> !occurs_at(s@, t@, j),
        decreases s@.len() - i,
    {
        if occurs_at_exec(s, t, i) {
            return Some(i);
        }
        i = i + 1;
    }
    if occurs_at_exec(s, t, i) {
        return Some(i);
    }
    assert forall|j: int| !occurs_at(s@, t@, j) by {
        if 0 <= j <= i {
        }
    }
    None
}

pub fn contains_chars(s: &[char], t: &[char]) -> (r: bool)
    ensures
        r == contains_sub(s@, t@),
{
    match find_sub(s, t) {
        Some(i) => {
            assert(occurs_at(s@, t@, i as int));
            true
        },
        None => false,
    }
}

pub fn starts_with_chars(s: &[char], p: &[char]) -> (r: bool)
    ensures
        r == starts_with(s@, p@),
{
    let r = occurs_at_exec(s, p, 0);
    assert(s@.subrange(0, p@.len() as int) == s@.take(p@.len() as int));
    r
}

/// Appends the characters of `t` to `s`.
pub fn push_chars(s: &mut String, t: &[char])
    ensures
        final(s)@ == old(s)@ + t@,
{
    let mut i: usize = 0;
    while i < t.len()
        invariant
            i <= t@.len(),
            s@ == old(s)@ + t@.take(i as int),
        decreases t@.len() - i,
    {
        push_char(s, t[i]);
        assert(t@.take(i as int + 1) == t@.take(i as int).push(t@[i as int]));
        i = i + 1;
    }
    assert(t@.take(t@.len() as int) == t@);
}

/// The decimal digit character for `d < 10`.
pub open spec fn digit_char(d: nat) -> char {
    (48 + d) as char
}

/// Decimal representation of `n` (what `n.to_string()` gives for an unsigned integer).
pub open spec fn decimal(n: nat) -> Seq<char>
    decreases n,
{
    if n < 10 {
        seq![digit_char(n)]
    } else {
        decimal(n / 10).push(digit_char(n % 10))
    }
}

/// Appends the decimal representation of `n` to `s`.
pub fn push_decimal(s: &mut String, n: u64)
    ensures
        final(s)@ == old(s)@ + decimal(n as nat),
    decreases n,
{
    if n >= 10 {
        push_decimal(s, n / 10);
    }
    let d = (n % 10) as u8;
    let c = (48u8 + d) as char;
    push_char(s, c);
}


/// The character sequences held by a sequence of vectors.
pub open spec fn views(v: Seq<Vec<char>>) -> Seq<Seq<char>> {
    v.map_values(|x: Vec<char>| x@)
}

/// The pieces of `s` between newline characters (the last piece may be empty).
pub open spec fn split_nl(s: Seq<char>) -> Seq<Seq<char>>
    decreases s.len(),
{
    if s.len() == 0 {
        seq![Seq::<char>::empty()]
    } else {
        let p = split_nl(s.drop_last());
        if s.last() == '\n' {
            p.push(Seq::<char>::empty())
        } else {
            p.update(p.len() - 1, p.last().push(s.last()))
        }
    }
}

/// A line without the carriage return of its `\r\n` ending.
pub open spec fn strip_cr(l: Seq<char>) -> Seq<char> {
    if l.len() > 0 && l.last() == '\r' {
        l.drop_last()
    } else {
        l
    }
}

/// The lines of `s` as `str::lines` yields them: split at `\n`, a `\r` before
/// the `\n` removed, and no empty last line after a final `\n`.
pub open spec fn lines(s: Seq<char>) -> Seq<Seq<char>> {
    let p = split_nl(s);
    if s.len() == 0 {
        seq![]
    } else if s.last() == '\n' {
        p.drop_last().map_values(|l: Seq<char>| strip_cr(l))
    } else {
        p.drop_last().map_values(|l: Seq<char>| strip_cr(l)).push(p.last())
    }
}

pub proof fn lemma_split_nl_nonempty(s: Seq<char>)
    ensures
        split_nl(s).len() >= 1,
    decreases s.len(),
{
    if s.len() > 0 {
        lemma_split_nl_nonempty(s.drop_last());
    }
}

fn strip_cr_exec(l: Vec<char>) -> (r: Vec<char>)
    ensures
        r@ == strip_cr(l@),
{
    let mut l = l;
    if l.len() > 0 && l[l.len() - 1] == '\r' {
        l.pop();
    }
    l
}

/// `str::lines`.
pub fn lines_of(s: &[char]) -> (v: Vec<Vec<char>>)
    ensures
        views(v@) == lines(s@),
{
    let mut done: Vec<Vec<char>> = Vec::new();
    let mut cur: Vec<char> = Vec::new();
    let mut i: usize = 0;
    proof {
        assert(s@.take(0) =~= Seq::<char>::empty());
    }
    while i < s.len()
        invariant
            i <= s@.len(),
            split_nl(s@.take(i as int)).len() >= 1,
            views(done@) == split_nl(s@.take(i as int)).drop_last().map_values(
                |l: Seq<char>| strip_cr(l),
            ),
            cur@ == split_nl(s@.take(i as int)).last(),
        decreases s@.len() - i,
    {
        let ghost prev = s@.take(i as int);
        let ghost p = split_nl(prev);
        assert(s@.take(i as int + 1).drop_last() =~= prev);
        assert(s@.take(i as int + 1).last() == s@[i as int]);
        proof {
            lemma_split_nl_nonempty(prev);
        }
        if s[i] == '\n' {
            let piece = strip_cr_exec(cur);
            let ghost d = views(done@);
            done.push(piece);
            assert(views(done@) =~= d.push(piece@));
            cur = Vec::new();
            assert(split_nl(s@.take(i as int + 1)) == p.push(Seq::<char>::empty()));
            assert(p.push(Seq::<char>::empty()).drop_last() == p);
            assert(p == p.drop_last().push(p.last()));
            assert(views(done@) =~= p.map_values(|l: Seq<char>| strip_cr(l)));
        } else {
            cur.push(s[i]);
            assert(split_nl(s@.take(i as int + 1)) == p.update(p.len() - 1, p.last().push(s@[i as int])));
            assert(p.update(p.len() - 1, p.last().push(s@[i as int])).drop_last() =~= p.drop_last());
        }
        i = i + 1;
    }
    assert(s@.take(s@.len() as int) == s@);
    if s.len() == 0 {
        assert(views(done@) =~= Seq::<Seq<char>>::empty());
        return done;
    }
    if s[s.len() - 1] != '\n' {
        let ghost d = views(done@);
        let ghost c = cur@;
        done.push(cur);
        assert(views(done@) =~= d.push(c));
        assert(views(done@) =~= d.push(split_nl(s@).last()));
    }
    done
}

/// What `char::is_alphanumeric` says of `c` (the Unicode `Alphabetic` and numeric properties).
pub uninterp spec fn alphanumeric(c: char) -> bool;

/// ASCII letters and digits.
pub open spec fn ascii_alnum(c: char) -> bool {
    ('a' <= c <= 'z') || ('A' <= c <= 'Z') || ('0' <= c <= '9')
}

/// Whether `char::is_alphanumeric` holds of `c`: on ASCII characters exactly for
/// letters and digits.
pub open spec fn alnum(c: char) -> bool {
    if (c as u32) < 128 {
        ascii_alnum(c)
    } else {
        alphanumeric(c)
    }
}

/// `char::is_alphanumeric`; on ASCII characters it holds exactly for letters and digits.
#[verifier::external_body]
pub(crate) fn is_alphanumeric(c: char) -> (r: bool)
    ensures
        r == alphanumeric(c),
        (c as u32) < 128 ==> (r == ascii_alnum(c)),
        r == alnum(c),
{
    c.is_alphanumeric()
}

/// What `str::to_lowercase` gives for `s` (full Unicode lower-case mapping).
pub uninterp spec fn lowercase(s: Seq<char>) -> Seq<char>;

/// `str::to_lowercase`.
#[verifier::external_body]
pub(crate) fn to_lowercase(s: &str) -> (r: String)
    ensures
        r@ == lowercase(s@),
{
    s.to_lowercase()
}

/// Whether `t` occurs in `s`.
pub fn str_contains(s: &str, t: &str) -> (r: bool)
    ensures
        r == contains_sub(s@, t@),
{
    let a = chars_of(s);
    let b = chars_of(t);
    contains_chars(a.as_slice(), b.as_slice())
}

/// `str::trim` into a new `String`.
pub fn trim_str(s: &str) -> (r: String)
    ensures
        r@ == trim(s@),
{
    let c = chars_of(s);
    let t = trim_chars(c.as_slice());
    string_of(t.as_slice())
}

/// `str::trim_end` into a new `String`.
pub fn trim_end_str(s: &str) -> (r: String)
    ensures
        r@ == trim_end(s@),
{
    let c = chars_of(s);
    let t = trim_end_chars(c.as_slice());
    string_of(t.as_slice())
}

/// The whitespace-separated words of `s` (`str::split_whitespace`).
pub open spec fn words(s: Seq<char>) -> Seq<Seq<char>>
    decreases s.len(),
{
    if s.len() == 0 {
        Seq::empty()
    } else {
        let w = words(s.drop_last());
        if is_ws(s.last()) {
            w
        } else if s.len() >= 2 && !is_ws(s[s.len() - 2]) && w.len() > 0 {
            w.update(w.len() - 1, w.last().push(s.last()))
        } else {
            w.push(seq![s.last()])
        }
    }
}

/// `str::split_whitespace`, collected.
pub fn split_whitespace(s: &[char]) -> (v: Vec<Vec<char>>)
    ensures
        views(v@) == words(s@),
{
    let mut done: Vec<Vec<char>> = Vec::new();
    let mut cur: Vec<char> = Vec::new();
    let mut i: usize = 0;
    assert(s@.take(0) =~= Seq::<char>::empty());
    while i < s.len()
        invariant
            i <= s@.len(),
            cur@.len() > 0 ==> i > 0 && !is_ws(s@[i - 1]),
            i > 0 && !is_ws(s@[i - 1]) ==> cur@.len() > 0,
            words(s@.take(i as int)) == (if cur@.len() > 0 {
                views(done@).push(cur@)
            } else {
                views(done@)
            }),
        decreases s@.len() - i,
    {
        let c = s[i];
        let ghost prev = s@.take(i as int);
        assert(s@.take(i + 1).drop_last() =~= prev);
        assert(s@.take(i + 1).last() == c);
        if char_is_ws(c) {
            if cur.len() > 0 {
                let ghost d = views(done@);
                let ghost cv = cur@;
                done.push(cur);
                assert(views(done@) =~= d.push(cv));
                cur = Vec::new();
            }
        } else {
            let ghost d = views(done@);
            let ghost old_cur = cur@;
            let had: bool = cur.len() > 0;
            cur.push(c);
            if had {
                assert(s@.take(i + 1)[i - 1] == s@[i - 1]);
                assert(d.push(old_cur).update(d.len() as int, old_cur.push(c)) =~= d.push(cur@));
            } else {
                assert(i >= 1 ==> s@.take(i + 1)[i - 1] == s@[i - 1]);
                assert(seq![c] =~= cur@);
            }
        }
        i = i + 1;
    }
    assert(s@.take(s@.len() as int) =~= s@);
    if cur.len() > 0 {
        let ghost d = views(done@);
        let ghost cv = cur@;
        done.push(cur);
        assert(views(done@) =~= d.push(cv));
    }
    done
}

/// The pieces of `ls` joined with single spaces (`[&str]::join(" ")`).
pub open spec fn join_spaces(ls: Seq<Seq<char>>) -> Seq<char>
    decreases ls.len(),
{
    if ls.len() == 0 {
        Seq::empty()
    } else if ls.len() == 1 {
        ls[0]
    } else {
        join_spaces(ls.drop_last()) + seq![' '] + ls.last()
    }
}

/// Joins `ls[..n]` with single spaces.
pub fn join_spaces_prefix(ls: &Vec<Vec<char>>, n: usize) -> (r: String)
    requires
        n <= ls@.len(),
    ensures
        r@ == join_spaces(views(ls@).take(n as int)),
{
    let ghost v = views(ls@);
    let mut out = String::new();
    if n == 0 {
        assert(v.take(0) =~= Seq::<Seq<char>>::empty());
        return out;
    }
    push_chars(&mut out, ls[0].as_slice());
    assert(v.take(1) =~= seq![v[0]]);
    let mut k: usize = 1;
    while k < n
        invariant
            1 <= k <= n <= ls@.len(),
            v == views(ls@),
            out@ == join_spaces(v.take(k as int)),
        decreases n - k,
    {
        push_char(&mut out, ' ');
        push_chars(&mut out, ls[k].as_slice());
        assert(v.take(k + 1).drop_last() =~= v.take(k as int));
        k = k + 1;
    }
    out
}

/// The value of a string of decimal digits.
pub open spec fn digits_value(s: Seq<char>) -> nat
    decreases s.len(),
{
    if s.len() == 0 {
        0
    } else {
        digits_value(s.drop_last()) * 10 + ((s.last() as u32) - 48) as nat
    }
}

pub open spec fn all_digits(s: Seq<char>) -> bool {
    forall|i: int| 0 <= i < s.len() ==> '0' <= #[trigger] s[i] <= '9'
}

/// `str::parse::<u8>`: an optional `+` and then one or more decimal digits whose
/// value fits in a byte.
pub open spec fn parse_u8(s: Seq<char>) -> Option<u8> {
    let d = if s.len() > 0 && s[0] == '+' {
        s.drop_first()
    } else {
        s
    };
    if d.len() > 0 && all_digits(d) && digits_value(d) <= 255 {
        Some(digits_value(d) as u8)
    } else {
        None
    }
}

proof fn lemma_digits_value_mono(s: Seq<char>, n: int)
    requires
        0 <= n <= s.len(),
        all_digits(s),
    ensures
        digits_value(s.take(n)) <= digits_value(s),
    decreases s.len(),
{
    if n < s.len() {
        assert(s.drop_last().take(n) == s.take(n));
        lemma_digits_value_mono(s.drop_last(), n);
    } else {
        assert(s.take(n) == s);
    }
}

/// `str::parse::<u8>`.
pub fn parse_u8_chars(s: &[char]) -> (r: Option<u8>)
    ensures
        r == parse_u8(s@),
{
    let start: usize = if s.len() > 0 && s[0] == '+' {
        1
    } else {
        0
    };
    let ghost d = if s@.len() > 0 && s@[0] == '+' {
        s@.drop_first()
    } else {
        s@
    };
    assert(d == s@.skip(start as int));
    if start >= s.len() {
        return None;
    }
    let mut v: u32 = 0;
    let mut i: usize = start;
    assert(d.take(0) =~= Seq::<char>::empty());
    while i < s.len()
        invariant
            start <= i <= s@.len(),
            start < s@.len(),
            d == s@.skip(start as int),
            d == (if s@.len() > 0 && s@[0] == '+' {
                s@.drop_first()
            } else {
                s@
            }),
            all_digits(d.take(i - start)),
            v == digits_value(d.take(i - start)),
            v <= 255,
        decreases s@.len() - i,
    {
        let c = s[i];
        if c < '0' || c > '9' {
            assert(!all_digits(d)) by {
                assert(d[i - start] == c);
            }
            assert(parse_u8(s@) is None);
            return None;
        }
        let nv: u32 = v * 10 + ((c as u32) - 48);
        assert(d.take(i + 1 - start).drop_last() =~= d.take(i - start));
        assert(d.take(i + 1 - start).last() == c);
        assert(nv == digits_value(d.take(i + 1 - start)));
        if nv > 255 {
            proof {
                assert(all_digits(d.take(i + 1 - start)));
                if all_digits(d) {
                    lemma_digits_value_mono(d, i + 1 - start);
                }
            }
            assert(parse_u8(s@) is None);
            return None;
        }
        v = nv;
        i = i + 1;
    }
    assert(d.take(s@.len() - start) =~= d);
    Some(v as u8)
}

/// `str::parse::<u32>`: an optional `+` and then one or more decimal digits whose
/// value fits in 32 bits.
pub open spec fn parse_u32(s: Seq<char>) -> Option<u32> {
    let d = if s.len() > 0 && s[0] == '+' {
        s.drop_first()
    } else {
        s
    };
    if d.len() > 0 && all_digits(d) && digits_value(d) <= u32::MAX {
        Some(digits_value(d) as u32)
    } else {
        None
    }
}

/// `str::parse::<u32>`.
pub fn parse_u32_chars(s: &[char]) -> (r: Option<u32>)
    ensures
        r == parse_u32(s@),
{
    let start: usize = if s.len() > 0 && s[0] == '+' {
        1
    } else {
        0
    };
    let ghost d = if s@.len() > 0 && s@[0] == '+' {
        s@.drop_first()
    } else {
        s@
    };
    assert(d == s@.skip(start as int));
    if start >= s.len() {
        return None;
    }
    let mut v: u64 = 0;
    let mut i: usize = start;
    assert(d.take(0) =~= Seq::<char>::empty());
    while i < s.len()
        invariant
            start <= i <= s@.len(),
            start < s@.len(),
            d == s@.skip(start as int),
            d == (if s@.len() > 0 && s@[0] == '+' {
                s@.drop_first()
            } else {
                s@
            }),
            all_digits(d.take(i - start)),
            v == digits_value(d.take(i - start)),
            v <= u32::MAX,
        decreases s@.len() - i,
    {
        let c = s[i];
        if c < '0' || c > '9' {
            assert(!all_digits(d)) by {
                assert(d[i - start] == c);
            }
            assert(parse_u32(s@) is None);
            return None;
        }
        let nv: u64 = v * 10 + ((c as u64) - 48);
        assert(d.take(i + 1 - start).drop_last() =~= d.take(i - start));
        assert(d.take(i + 1 - start).last() == c);
        assert(nv == digits_value(d.take(i + 1 - start)));
        if nv > 0xffff_ffff {
            proof {
                assert(all_digits(d.take(i + 1 - start)));
                if all_digits(d) {
                    lemma_digits_value_mono(d, i + 1 - start);
                }
            }
            assert(parse_u32(s@) is None);
            return None;
        }
        v = nv;
        i = i + 1;
    }
    assert(d.take(s@.len() - start) =~= d);
    Some(v as u32)
}

/// What `str::to_uppercase` gives for `s` (full Unicode upper-case mapping).
pub uninterp spec fn uppercase(s: Seq<char>) -> Seq<char>;

/// `str::to_uppercase`.
#[verifier::external_body]
pub(crate) fn to_uppercase(s: &str) -> (r: String)
    ensures
        r@ == uppercase(s@),
{
    s.to_uppercase()
}

/// A letter or digit (`char::is_alphanumeric`), or one of the characters of `extra`.
pub open spec fn alnum_or(c: char, extra: Seq<char>) -> bool {
    alnum(c) || extra.contains(c)
}

pub fn is_alnum_or(c: char, extra: &[char]) -> (r: bool)
    ensures
        r == alnum_or(c, extra@),
{
    if is_alphanumeric(c) {
        return true;
    }
    let mut i: usize = 0;
    while i < extra.len()
        invariant
            i <= extra@.len(),
            forall|k: int| 0 <= k < i ==> extra@[k] != c,
        decreases extra@.len() - i,
    {
        if extra[i] == c {
            assert(extra@[i as int] == c);
            return true;
        }
        i = i + 1;
    }
    false
}

/// Index of the first occurrence of `t` in `s` (`str::find`, counted in characters).
#[verifier::opaque]
pub open spec fn first_occurrence(s: Seq<char>, t: Seq<char>) -> Option<int> {
    if contains_sub(s, t) {
        Some(choose|i: int| occurs_at(s, t, i) && forall|j: int| 0 <= j < i ==> !occurs_at(s, t, j))
    } else {
        None
    }
}

pub proof fn lemma_first_occurrence(s: Seq<char>, t: Seq<char>, i: int)
    requires
        occurs_at(s, t, i),
        forall|j: int| 0 <= j < i ==> !occurs_at(s, t, j),
    ensures
        first_occurrence(s, t) == Some(i),
{
    reveal(first_occurrence);
    assert(contains_sub(s, t));
    let c = choose|c: int| occurs_at(s, t, c) && forall|j: int| 0 <= j < c ==> !occurs_at(s, t, j);
    if c < i {
        assert(!occurs_at(s, t, c));
    } else if c > i {
        assert(!occurs_at(s, t, i));
    }
}

proof fn lemma_min_occurrence(s: Seq<char>, t: Seq<char>, w: int)
    requires
        occurs_at(s, t, w),
    ensures
        exists|i: int| 0 <= i <= w && occurs_at(s, t, i) && forall|j: int| 0 <= j < i ==> !occurs_at(s, t, j),
    decreases w,
{
    if exists|j: int| 0 <= j < w && occurs_at(s, t, j) {
        let j = choose|j: int| 0 <= j < w && occurs_at(s, t, j);
        lemma_min_occurrence(s, t, j);
    } else {
        assert(occurs_at(s, t, w));
    }
}

/// What `first_occurrence` gives: the first place `t` occurs in `s`, or `None`
/// when it does not occur.
pub proof fn lemma_first_occurrence_found(s: Seq<char>, t: Seq<char>)
    ensures
        match first_occurrence(s, t) {
            Some(i) => occurs_at(s, t, i) && forall|j: int| 0 <= j < i ==> !occurs_at(s, t, j),
            None => !contains_sub(s, t),
        },
{
    reveal(first_occurrence);
    if contains_sub(s, t) {
        let w = choose|w: int| occurs_at(s, t, w);
        lemma_min_occurrence(s, t, w);
    }
}

/// `str::find`, as a character index.
pub fn find_str(s: &[char], t: &[char]) -> (r: Option<usize>)
    ensures
        match r {
            Some(i) => first_occurrence(s@, t@) == Some(i as int) && i + t@.len() <= s@.len(),
            None => first_occurrence(s@, t@) is None,
        },
{
    match find_sub(s, t) {
        Some(i) => {
            proof {
                lemma_first_occurrence(s@, t@, i as int);
            }
            Some(i)
        },
        None => {
            proof {
                reveal(first_occurrence);
            }
            None
        },
    }
}

/// `s` with every `from` character replaced by the characters of `to`.
pub open spec fn replace_char(s: Seq<char>, from: char, to: Seq<char>) -> Seq<char>
    decreases s.len(),
{
    if s.len() == 0 {
        Seq::empty()
    } else {
        replace_char(s.drop_last(), from, to) + (if s.last() == from {
            to
        } else {
            seq![s.last()]
        })
    }
}

/// `str::replace` of one character by a string.
pub fn replace_char_str(s: &str, from: char, to: &str) -> (r: String)
    ensures
        r@ == replace_char(s@, from, to@),
{
    let c = chars_of(s);
    let mut r = String::new();
    let mut i: usize = 0;
    assert(c@.take(0) =~= Seq::<char>::empty());
    while i < c.len()
        invariant
            i <= c@.len(),
            c@ == s@,
            r@ == replace_char(c@.take(i as int), from, to@),
        decreases c@.len() - i,
    {
        assert(c@.take(i + 1).drop_last() =~= c@.take(i as int));
        assert(c@.take(i + 1).last() == c@[i as int]);
        if c[i] == from {
            r.append(to);
        } else {
            push_char(&mut r, c[i]);
            assert(seq![c@[i as int]] =~= Seq::<char>::empty().push(c@[i as int]));
        }
        i = i + 1;
    }
    assert(c@.take(c@.len() as int) =~= c@);
    r
}

/// `str::replace` with a non-empty pattern: each occurrence of `from`, left to
/// right and without overlap, becomes `to`.
pub open spec fn replace_all(s: Seq<char>, from: Seq<char>, to: Seq<char>) -> Seq<char>
    decreases s.len(),
{
    if from.len() == 0 || s.len() < from.len() {
        s
    } else if s.take(from.len() as int) == from {
        to + replace_all(s.skip(from.len() as int), from, to)
    } else {
        seq![s[0]] + replace_all(s.drop_first(), from, to)
    }
}

pub fn replace_all_str(s: &str, from: &str, to: &str) -> (r: String)
    ensures
        r@ == replace_all(s@, from@, to@),
{
    let c = chars_of(s);
    let f = chars_of(from);
    let t = chars_of(to);
    let mut r = String::new();
    if f.len() == 0 {
        r.append(s);
        return r;
    }
    let mut i: usize = 0;
    assert(c@.skip(0) == c@);
    while i < c.len()
        invariant
            i <= c@.len(),
            c@ == s@,
            f@ == from@,
            t@ == to@,
            f@.len() > 0,
            r@ + replace_all(c@.skip(i as int), from@, to@) == replace_all(s@, from@, to@),
        decreases c@.len() - i,
    {
        let ghost rest = c@.skip(i as int);
        if occurs_at_exec(c.as_slice(), f.as_slice(), i) {
            assert(rest.take(f@.len() as int) == c@.subrange(i as int, i + f@.len()));
            assert(rest.skip(f@.len() as int) == c@.skip(i + f@.len()));
            push_chars(&mut r, t.as_slice());
            i = i + f.len();
        } else {
            if c.len() - i >= f.len() {
                assert(rest.take(f@.len() as int) == c@.subrange(i as int, i + f@.len()));
                assert(rest.drop_first() == c@.skip(i + 1));
                assert(rest[0] == c@[i as int]);
                push_char(&mut r, c[i]);
                assert(r@ + replace_all(c@.skip(i + 1), from@, to@) == replace_all(s@, from@, to@));
                i = i + 1;
            } else {
                let tail = vstd::slice::slice_subrange(c.as_slice(), i, c.len());
                assert(tail@ == rest);
                push_chars(&mut r, tail);
                assert(c@.skip(c@.len() as int).len() == 0);
                i = c.len();
            }
        }
    }
    assert(c@.skip(i as int).len() == 0);
    r
}

} // verus!
