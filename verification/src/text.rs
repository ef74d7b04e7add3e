//! Character-sequence utilities with exact specifications.
//!
//! Strings are handled as sequences of `char` (the view that Verus gives to
//! `str` and `String`). Every routine here states its result as a spec
//! function over those sequences, so the parsers built on top of them can be
//! specified in the same terms.

use vstd::prelude::*;

verus! {

pub assume_specification[ String::push ](s: &mut String, ch: char)
    ensures
        final(s)@ == old(s)@.push(ch),
;

// ── Conversions ──────────────────────────────────────────────────────────────

/// The characters of `s`, in order.
pub fn to_chars(s: &str) -> (v: Vec<char>)
    ensures
        v@ == s@,
{
    let mut v: Vec<char> = Vec::new();
    for c in it: s.chars()
        invariant
            v@ == it.seq().take(it.index() as int),
            it.seq() == s@,
    {
        v.push(c);
    }
    v
}

/// A string holding exactly the characters of `v`.
pub fn from_chars(v: &[char]) -> (s: String)
    ensures
        s@ == v@,
{
    let mut s = String::new();
    let mut i: usize = 0;
    while i < v.len()
        invariant
            i <= v@.len(),
            s@ == v@.take(i as int),
        decreases v@.len() - i,
    {
        s.push(v[i]);
        i += 1;
        assert(s@ =~= v@.take(i as int));
    }
    assert(v@.take(v@.len() as int) =~= v@);
    s
}

/// Appends all characters of `src` to `dst`.
pub fn extend_chars(dst: &mut Vec<char>, src: &[char])
    ensures
        final(dst)@ == old(dst)@ + src@,
{
    let mut i: usize = 0;
    while i < src.len()
        invariant
            i <= src@.len(),
            dst@ == old(dst)@ + src@.take(i as int),
        decreases src@.len() - i,
    {
        dst.push(src[i]);
        i += 1;
        assert(dst@ =~= old(dst)@ + src@.take(i as int));
    }
    assert(src@.take(src@.len() as int) =~= src@);
}

/// A copy of `s[start..end]`.
pub fn sub_chars(s: &[char], start: usize, end: usize) -> (v: Vec<char>)
    requires
        start <= end <= s@.len(),
    ensures
        v@ == s@.subrange(start as int, end as int),
{
    let mut v: Vec<char> = Vec::new();
    let mut i: usize = start;
    while i < end
        invariant
            start <= i <= end <= s@.len(),
            v@ == s@.subrange(start as int, i as int),
        decreases end - i,
    {
        v.push(s[i]);
        i += 1;
        assert(v@ =~= s@.subrange(start as int, i as int));
    }
    v
}

// ── Searching ────────────────────────────────────────────────────────────────

/// `p` occurs in `s` starting at position `i`.
pub open spec fn occurs_at(s: Seq<char>, p: Seq<char>, i: int) -> bool {
    0 <= i && i + p.len() <= s.len() && s.subrange(i, i + p.len()) == p
}

/// The first position at or after `i` where `p` occurs in `s`.
pub open spec fn find_from(s: Seq<char>, p: Seq<char>, i: int) -> Option<int>
    decreases s.len() + 1 - i,
{
    if i < 0 || i + p.len() > s.len() {
        None
    } else if occurs_at(s, p, i) {
        Some(i)
    } else {
        find_from(s, p, i + 1)
    }
}

/// The first position where `p` occurs in `s` (as `str::find`).
pub open spec fn find(s: Seq<char>, p: Seq<char>) -> Option<int> {
    find_from(s, p, 0)
}

/// `p` occurs somewhere in `s` (as `str::contains`).
pub open spec fn contains(s: Seq<char>, p: Seq<char>) -> bool {
    find(s, p) is Some
}

pub open spec fn starts_with(s: Seq<char>, p: Seq<char>) -> bool {
    occurs_at(s, p, 0)
}

pub open spec fn ends_with(s: Seq<char>, p: Seq<char>) -> bool {
    occurs_at(s, p, s.len() - p.len())
}

/// What `find_from` returns is an occurrence, and no earlier one exists.
pub proof fn lemma_find_from(s: Seq<char>, p: Seq<char>, i: int)
    requires
        0 <= i,
    ensures
        find_from(s, p, i) matches Some(k) ==> i <= k && occurs_at(s, p, k) && forall|j: int|
            i <= j < k ==> !occurs_at(s, p, j),
        find_from(s, p, i) is None ==> forall|j: int| i <= j ==> !occurs_at(s, p, j),
    decreases s.len() + 1 - i,
{
    if i + p.len() > s.len() {
    } else if occurs_at(s, p, i) {
    } else {
        lemma_find_from(s, p, i + 1);
    }
}

/// An occurrence with none before it is what `find` returns.
pub proof fn lemma_find_first_at(s: Seq<char>, p: Seq<char>, k: int)
    requires
        occurs_at(s, p, k),
        forall|j: int| 0 <= j < k ==> !occurs_at(s, p, j),
    ensures
        find(s, p) == Some(k),
{
    lemma_find_from(s, p, 0);
}

/// Whether `p` occurs in `s` at `i`.
pub fn matches_at(s: &[char], p: &[char], i: usize) -> (r: bool)
    ensures
        r == occurs_at(s@, p@, i as int),
{
    if i > s.len() || p.len() > s.len() - i {
        return false;
    }
    let n = s.len();
    let mut k: usize = 0;
    while k < p.len()
        invariant
            n == s@.len(),
            i + p@.len() <= s@.len(),
            k <= p@.len(),
            forall|j: int| 0 <= j < k ==> s@[i + j] == p@[j],
        decreases p@.len() - k,
    {
        assert(i + k < s@.len());
        if s[i + k] != p[k] {
            assert(s@.subrange(i as int, i + p@.len())[k as int] != p@[k as int]);
            return false;
        }
        k += 1;
    }
    assert(s@.subrange(i as int, i + p@.len()) =~= p@);
    true
}

/// The first occurrence of `p` in `s` at or after `start`.
pub fn find_chars_from(s: &[char], p: &[char], start: usize) -> (r: Option<usize>)
    ensures
        r matches Some(k) ==> find_from(s@, p@, start as int) == Some(k as int),
        r is None ==> find_from(s@, p@, start as int) is None,
        r matches Some(k) ==> start <= k && k + p@.len() <= s@.len() && occurs_at(s@, p@, k as int),
{
    proof {
        lemma_find_from(s@, p@, start as int);
    }
    if start > s.len() || p.len() > s.len() - start {
        return None;
    }
    if p.len() == 0 {
        assert(s@.subrange(start as int, start as int) =~= p@);
        return Some(start);
    }
    let last = s.len() - p.len();
    let mut i = start;
    let n = s.len();
    while i <= last
        invariant
            n == s@.len(),
            p@.len() > 0,
            start <= i,
            last + p@.len() == s@.len(),
            find_from(s@, p@, start as int) == find_from(s@, p@, i as int),
        decreases last + 1 - i,
    {
        if matches_at(s, p, i) {
            return Some(i);
        }
        i += 1;
    }
    None
}

/// The first occurrence of `p` in `s`.
pub fn find_chars(s: &[char], p: &[char]) -> (r: Option<usize>)
    ensures
        r matches Some(k) ==> find(s@, p@) == Some(k as int),
        r is None ==> find(s@, p@) is None,
        r matches Some(k) ==> k + p@.len() <= s@.len() && occurs_at(s@, p@, k as int),
{
    find_chars_from(s, p, 0)
}

/// Whether two character sequences are equal.
pub fn eq_chars(a: &[char], b: &[char]) -> (r: bool)
    ensures
        r == (a@ == b@),
{
    if a.len() != b.len() {
        return false;
    }
    let r = matches_at(a, b, 0);
    assert(a@.subrange(0, b@.len() as int) =~= a@);
    r
}

pub fn contains_chars(s: &[char], p: &[char]) -> (r: bool)
    ensures
        r == contains(s@, p@),
{
    find_chars(s, p).is_some()
}

pub fn starts_with_chars(s: &[char], p: &[char]) -> (r: bool)
    ensures
        r == starts_with(s@, p@),
{
    matches_at(s, p, 0)
}

pub fn ends_with_chars(s: &[char], p: &[char]) -> (r: bool)
    ensures
        r == ends_with(s@, p@),
{
    if p.len() > s.len() {
        false
    } else {
        matches_at(s, p, s.len() - p.len())
    }
}

// ── Replacing ────────────────────────────────────────────────────────────────

/// Left-to-right, non-overlapping replacement of every occurrence of `p`
/// by `r` (as `str::replace` with a non-empty pattern).
pub open spec fn replace(s: Seq<char>, p: Seq<char>, r: Seq<char>) -> Seq<char>
    decreases s.len(),
{
    if s.len() == 0 || p.len() == 0 {
        s
    } else if occurs_at(s, p, 0) {
        r + replace(s.skip(p.len() as int), p, r)
    } else {
        seq![s[0]] + replace(s.skip(1), p, r)
    }
}

proof fn lemma_occurs_skip(s: Seq<char>, p: Seq<char>, i: int)
    requires
        0 <= i <= s.len(),
    ensures
        occurs_at(s.skip(i), p, 0) == occurs_at(s, p, i),
{
    if occurs_at(s, p, i) {
        assert(s.skip(i).subrange(0, p.len() as int) =~= s.subrange(i, i + p.len()));
    }
    if occurs_at(s.skip(i), p, 0) {
        assert(s.skip(i).subrange(0, p.len() as int) =~= s.subrange(i, i + p.len()));
    }
}

/// Replacing in `a + b`, where no occurrence of `p` starts inside `a`,
/// keeps `a` as it is.
pub proof fn lemma_replace_keep_prefix(a: Seq<char>, b: Seq<char>, p: Seq<char>, r: Seq<char>)
    requires
        p.len() > 0,
        forall|j: int| 0 <= j < a.len() ==> !occurs_at(a + b, p, j),
    ensures
        replace(a + b, p, r) == a + replace(b, p, r),
    decreases a.len(),
{
    if a.len() == 0 {
        assert(a + b =~= b);
        assert(a + replace(b, p, r) =~= replace(b, p, r));
    } else {
        let s = a + b;
        assert(!occurs_at(s, p, 0));
        assert(s.skip(1) =~= a.skip(1) + b);
        assert forall|j: int| 0 <= j < a.skip(1).len() implies !occurs_at(a.skip(1) + b, p, j) by {
            if occurs_at(a.skip(1) + b, p, j) {
                assert((a.skip(1) + b).subrange(j, j + p.len()) =~= s.subrange(j + 1, j + 1 + p.len()));
                assert(occurs_at(s, p, j + 1));
            }
        }
        lemma_replace_keep_prefix(a.skip(1), b, p, r);
        assert(seq![s[0]] + (a.skip(1) + replace(b, p, r)) =~= a + replace(b, p, r));
    }
}

/// Replacing in a string where `p` does not occur changes nothing.
pub proof fn lemma_replace_none(s: Seq<char>, p: Seq<char>, r: Seq<char>)
    requires
        p.len() > 0,
        !contains(s, p),
    ensures
        replace(s, p, r) == s,
{
    lemma_find_from(s, p, 0);
    let e = Seq::<char>::empty();
    assert(s + e =~= s);
    lemma_replace_keep_prefix(s, e, p, r);
    assert(s + replace(e, p, r) =~= s);
}

/// Every occurrence of `p` in `s` replaced by `r`.
pub fn replace_chars(s: &[char], p: &[char], r: &[char]) -> (out: Vec<char>)
    requires
        p@.len() > 0,
    ensures
        out@ == replace(s@, p@, r@),
{
    let mut out: Vec<char> = Vec::new();
    let mut i: usize = 0;
    assert(s@.skip(0) =~= s@);
    while i < s.len()
        invariant
            p@.len() > 0,
            i <= s@.len(),
            replace(s@, p@, r@) == out@ + replace(s@.skip(i as int), p@, r@),
        decreases s@.len() - i,
    {
        let ghost rest = s@.skip(i as int);
        proof {
            lemma_occurs_skip(s@, p@, i as int);
        }
        if matches_at(s, p, i) {
            extend_chars(&mut out, r);
            assert(rest.skip(p@.len() as int) =~= s@.skip(i + p@.len()));
            i += p.len();
        } else {
            out.push(s[i]);
            assert(rest.skip(1) =~= s@.skip(i + 1));
            i += 1;
        }
    }
    assert(s@.skip(i as int).len() == 0);
    assert(out@ + s@.skip(i as int) =~= out@);
    out
}

// ── Splitting ────────────────────────────────────────────────────────────────

/// The pieces of `s` between occurrences of the non-empty separator `sep`
/// (as `str::split`): always at least one piece.
pub open spec fn split(s: Seq<char>, sep: Seq<char>) -> Seq<Seq<char>>
    decreases s.len(),
{
    if sep.len() == 0 {
        seq![s]
    } else {
        match find(s, sep) {
            Some(i) => if 0 <= i && i + sep.len() <= s.len() {
                seq![s.take(i)] + split(s.skip(i + sep.len()), sep)
            } else {
                seq![s]
            },
            None => seq![s],
        }
    }
}

/// The first piece of `split(s, sep)`: everything before the first separator.
pub open spec fn before_first(s: Seq<char>, sep: Seq<char>) -> Seq<char> {
    match find(s, sep) {
        Some(i) => s.take(i),
        None => s,
    }
}

/// A first occurrence in `a` is still the first one in `a + b`.
pub proof fn lemma_find_in_prefix(a: Seq<char>, b: Seq<char>, p: Seq<char>, k: int)
    requires
        find(a, p) == Some(k),
    ensures
        find(a + b, p) == Some(k),
{
    lemma_find_from(a, p, 0);
    assert((a + b).subrange(k, k + p.len()) =~= a.subrange(k, k + p.len()));
    assert forall|j: int| 0 <= j < k implies !occurs_at(a + b, p, j) by {
        if occurs_at(a + b, p, j) {
            assert(j + p.len() <= a.len());
            assert((a + b).subrange(j, j + p.len()) =~= a.subrange(j, j + p.len()));
            assert(occurs_at(a, p, j));
        }
    }
    lemma_find_first_at(a + b, p, k);
}

/// The first piece of a split is what comes before the first separator.
pub proof fn lemma_split_first(s: Seq<char>, sep: Seq<char>)
    requires
        sep.len() > 0,
    ensures
        split(s, sep)[0] == before_first(s, sep),
{
    lemma_find_from(s, sep, 0);
}

/// The pieces of `s` separated by `sep`.
pub fn split_chars(s: &[char], sep: &[char]) -> (parts: Vec<Vec<char>>)
    requires
        sep@.len() > 0,
    ensures
        parts@.map_values(|v: Vec<char>| v@) == split(s@, sep@),
{
    let mut parts: Vec<Vec<char>> = Vec::new();
    let mut start: usize = 0;
    let n = s.len();
    assert(s@.skip(0) =~= s@);
    loop
        invariant
            n == s@.len(),
            sep@.len() > 0,
            start <= s@.len(),
            split(s@, sep@) == parts@.map_values(|v: Vec<char>| v@) + split(
                s@.skip(start as int),
                sep@,
            ),
        decreases s@.len() - start,
    {
        let ghost rest = s@.skip(start as int);
        let found = find_chars_from(s, sep, start);
        proof {
            lemma_find_from(s@, sep@, start as int);
            lemma_find_from(rest, sep@, 0);
            lemma_find_shift(s@, sep@, start as int);
        }
        match found {
            Some(k) => {
                assert(occurs_at(s@, sep@, k as int));
                let piece = sub_chars(s, start, k);
                assert(piece@ =~= rest.take(k - start));
                assert(rest.skip(k - start + sep@.len()) =~= s@.skip(k + sep@.len()));
                let ghost before = parts@.map_values(|v: Vec<char>| v@);
                parts.push(piece);
                assert(parts@.map_values(|v: Vec<char>| v@) =~= before.push(piece@));
                assert(before.push(piece@) + split(s@.skip(k + sep@.len()), sep@) =~= before + (
                seq![piece@] + split(s@.skip(k + sep@.len()), sep@)));
                start = k + sep.len();
            },
            None => {
                let piece = sub_chars(s, start, s.len());
                assert(piece@ =~= rest);
                let ghost before = parts@.map_values(|v: Vec<char>| v@);
                parts.push(piece);
                assert(parts@.map_values(|v: Vec<char>| v@) =~= before + seq![rest]);
                return parts;
            },
        }
    }
}

/// Searching the tail of `s` from 0 is searching `s` from the same offset.
pub proof fn lemma_find_shift(s: Seq<char>, p: Seq<char>, start: int)
    requires
        0 <= start <= s.len(),
    ensures
        match (find_from(s, p, start), find(s.skip(start), p)) {
            (Some(a), Some(b)) => a == b + start,
            (None, None) => true,
            _ => false,
        },
{
    lemma_find_from(s, p, start);
    lemma_find_from(s.skip(start), p, 0);
    assert forall|j: int| 0 <= j implies occurs_at(s.skip(start), p, j) == occurs_at(
        s,
        p,
        j + start,
    ) by {
        if occurs_at(s.skip(start), p, j) {
            assert(s.skip(start).subrange(j, j + p.len()) =~= s.subrange(j + start, j + start + p.len()));
        }
        if occurs_at(s, p, j + start) {
            assert(s.skip(start).subrange(j, j + p.len()) =~= s.subrange(j + start, j + start + p.len()));
        }
    }
    match (find_from(s, p, start), find(s.skip(start), p)) {
        (Some(a), Some(b)) => {
            assert(occurs_at(s, p, b + start));
            assert(occurs_at(s.skip(start), p, a - start));
        },
        (Some(a), None) => {
            assert(occurs_at(s.skip(start), p, a - start));
        },
        (None, Some(b)) => {
            assert(occurs_at(s, p, b + start));
        },
        _ => {},
    }
}

/// The pieces of a split, with their separators, make up the whole: so the
/// last piece and its separator fit inside the string when there are two or
/// more pieces.
pub proof fn lemma_split_lengths(s: Seq<char>, sep: Seq<char>)
    requires
        sep.len() > 0,
    ensures
        split(s, sep).len() >= 1,
        split(s, sep).len() == 1 ==> split(s, sep)[0] == s,
        split(s, sep).last().len() <= s.len(),
        split(s, sep).len() >= 2 ==> split(s, sep).last().len() + sep.len() <= s.len()
            && s.subrange(s.len() - split(s, sep).last().len() - sep.len(), s.len() - split(s, sep).last().len()) == sep,
    decreases s.len(),
{
    lemma_split_nonempty(s, sep);
    lemma_find_from(s, sep, 0);
    match find(s, sep) {
        Some(i) => {
            if 0 <= i && i + sep.len() <= s.len() {
                let rest = s.skip(i + sep.len());
                lemma_split_lengths(rest, sep);
                lemma_split_nonempty(rest, sep);
                let tail = split(rest, sep);
                assert((seq![s.take(i)] + tail).len() >= 2);
                assert(split(s, sep) == seq![s.take(i)] + tail);
                assert(split(s, sep).last() == tail.last());
                if tail.len() >= 2 {
                    assert(s.subrange(s.len() - tail.last().len() - sep.len(), s.len() - tail.last().len())
                        =~= rest.subrange(rest.len() - tail.last().len() - sep.len(), rest.len() - tail.last().len()));
                } else {
                    assert(tail.last() == rest);
                    assert(s.subrange(s.len() - rest.len() - sep.len(), s.len() - rest.len()) =~= s.subrange(i, i + sep.len()));
                }
            }
        },
        None => {},
    }
}

/// A line with one trailing carriage return removed, if it has one.
pub open spec fn strip_cr(l: Seq<char>) -> Seq<char> {
    if l.len() > 0 && l.last() == '\r' {
        l.drop_last()
    } else {
        l
    }
}

/// The lines of `s` (as `str::lines`): split at `\n`, a `\r` just before a
/// `\n` removed, and no empty final line after a final line ending.
pub open spec fn lines(s: Seq<char>) -> Seq<Seq<char>> {
    let parts = split(s, seq!['\n']);
    let terminated = if parts.last().len() == 0 {
        parts.drop_last()
    } else {
        parts
    };
    Seq::new(
        terminated.len(),
        |i: int|
            if i < parts.len() - 1 {
                strip_cr(terminated[i])
            } else {
                terminated[i]
            },
    )
}


/// The lines of `s`.
pub fn lines_chars(s: &[char]) -> (out: Vec<Vec<char>>)
    ensures
        out@.map_values(|v: Vec<char>| v@) == lines(s@),
{
    let nl = ['\n'];
    let parts = split_chars(s, &nl);
    let ghost sp = split(s@, seq!['\n']);
    assert(nl@ =~= seq!['\n']);
    proof {
        lemma_split_nonempty(s@, seq!['\n']);
    }
    let count = if parts[parts.len() - 1].len() == 0 {
        parts.len() - 1
    } else {
        parts.len()
    };
    let ghost terminated = if sp.last().len() == 0 {
        sp.drop_last()
    } else {
        sp
    };
    let mut out: Vec<Vec<char>> = Vec::new();
    let mut i: usize = 0;
    while i < count
        invariant
            parts@.map_values(|v: Vec<char>| v@) == sp,
            sp.len() == parts@.len(),
            count == terminated.len(),
            terminated.len() <= sp.len(),
            forall|j: int| 0 <= j < terminated.len() ==> terminated[j] == sp[j],
            i <= count,
            out@.len() == i,
            forall|j: int|
                0 <= j < i ==> (#[trigger] out@[j])@ == (if j < sp.len() - 1 {
                    strip_cr(terminated[j])
                } else {
                    terminated[j]
                }),
        decreases count - i,
    {
        let p = &parts[i];
        assert(p@ == sp[i as int]);
        if i + 1 < parts.len() && p.len() > 0 && p[p.len() - 1] == '\r' {
            let q = sub_chars(p, 0, p.len() - 1);
            assert(q@ =~= p@.drop_last());
            out.push(q);
        } else {
            let q = sub_chars(p, 0, p.len());
            assert(q@ =~= p@);
            out.push(q);
        }
        i += 1;
    }
    assert(out@.map_values(|v: Vec<char>| v@) =~= lines(s@));
    out
}

pub proof fn lemma_split_nonempty(s: Seq<char>, sep: Seq<char>)
    ensures
        split(s, sep).len() >= 1,
    decreases s.len(),
{
    if sep.len() > 0 {
        match find(s, sep) {
            Some(i) => if 0 <= i && i + sep.len() <= s.len() {
                lemma_split_nonempty(s.skip(i + sep.len()), sep);
            },
            None => {},
        }
    }
}

// ── Trimming and case ────────────────────────────────────────────────────────

/// Unicode `White_Space` (as `char::is_whitespace`).
pub open spec fn is_whitespace(c: char) -> bool {
    let u = c as u32;
    (0x9 <= u && u <= 0xD) || u == 0x20 || u == 0x85 || u == 0xA0 || u == 0x1680 || (0x2000 <= u
        && u <= 0x200A) || u == 0x2028 || u == 0x2029 || u == 0x202F || u == 0x205F || u == 0x3000
}

pub fn is_whitespace_char(c: char) -> (r: bool)
    ensures
        r == is_whitespace(c),
{
    let u = c as u32;
    (0x9 <= u && u <= 0xD) || u == 0x20 || u == 0x85 || u == 0xA0 || u == 0x1680 || (0x2000 <= u
        && u <= 0x200A) || u == 0x2028 || u == 0x2029 || u == 0x202F || u == 0x205F || u == 0x3000
}

/// `s` without leading whitespace (as `str::trim_start`).
pub open spec fn trim_start(s: Seq<char>) -> Seq<char>
    decreases s.len(),
{
    if s.len() > 0 && is_whitespace(s[0]) {
        trim_start(s.skip(1))
    } else {
        s
    }
}

/// `s` without trailing whitespace (as `str::trim_end`).
pub open spec fn trim_end(s: Seq<char>) -> Seq<char>
    decreases s.len(),
{
    if s.len() > 0 && is_whitespace(s.last()) {
        trim_end(s.drop_last())
    } else {
        s
    }
}

/// `s` without leading and trailing whitespace (as `str::trim`).
pub open spec fn trim(s: Seq<char>) -> Seq<char> {
    trim_end(trim_start(s))
}

/// `s` with whitespace removed at both ends.
pub fn trim_chars(s: &[char]) -> (out: Vec<char>)
    ensures
        out@ == trim(s@),
{
    let n = s.len();
    let mut i: usize = 0;
    assert(s@.skip(0) =~= s@);
    while i < n && is_whitespace_char(s[i])
        invariant
            n == s@.len(),
            i <= n,
            trim_start(s@) == trim_start(s@.skip(i as int)),
        decreases n - i,
    {
        assert(s@.skip(i as int).skip(1) =~= s@.skip(i + 1));
        i += 1;
    }
    let ghost t = s@.skip(i as int);
    assert(trim_start(t) == t);
    let mut j: usize = n;
    assert(t.take((j - i) as int) =~= t);
    while j > i && is_whitespace_char(s[j - 1])
        invariant
            n == s@.len(),
            i <= j <= n,
            t == s@.skip(i as int),
            trim_end(t) == trim_end(t.take(j - i)),
        decreases j,
    {
        assert(t.take(j - i).drop_last() =~= t.take(j - 1 - i));
        j -= 1;
    }
    assert(trim_end(t.take(j - i)) == t.take(j - i));
    let out = sub_chars(s, i, j);
    assert(out@ =~= t.take(j - i));
    out
}

/// `s` with every leading repetition of `p` removed (as `str::trim_start_matches`).
pub open spec fn trim_start_matches(s: Seq<char>, p: Seq<char>) -> Seq<char>
    decreases s.len(),
{
    if p.len() > 0 && starts_with(s, p) {
        trim_start_matches(s.skip(p.len() as int), p)
    } else {
        s
    }
}

pub fn trim_start_matches_chars(s: &[char], p: &[char]) -> (out: Vec<char>)
    ensures
        out@ == trim_start_matches(s@, p@),
{
    let n = s.len();
    let mut i: usize = 0;
    assert(s@.skip(0) =~= s@);
    if p.len() == 0 {
        return sub_chars(s, 0, n);
    }
    while i <= n && matches_at(s, p, i)
        invariant
            n == s@.len(),
            p@.len() > 0,
            i <= n,
            trim_start_matches(s@, p@) == trim_start_matches(s@.skip(i as int), p@),
        decreases n - i,
    {
        proof {
            lemma_occurs_skip(s@, p@, i as int);
        }
        assert(s@.skip(i as int).skip(p@.len() as int) =~= s@.skip(i + p@.len()));
        i += p.len();
    }
    proof {
        lemma_occurs_skip(s@, p@, i as int);
    }
    let out = sub_chars(s, i, n);
    assert(out@ =~= s@.skip(i as int));
    out
}

/// ASCII upper-case letters mapped to lower case, every other char kept.
pub open spec fn ascii_lower(c: char) -> char {
    if 'A' <= c && c <= 'Z' {
        ((c as u32) + 32) as char
    } else {
        c
    }
}

/// `s` with ASCII letters in lower case (as `str::to_ascii_lowercase`).
pub open spec fn to_ascii_lowercase(s: Seq<char>) -> Seq<char> {
    s.map_values(|c: char| ascii_lower(c))
}

pub fn ascii_lower_char(c: char) -> (r: char)
    ensures
        r == ascii_lower(c),
{
    if 'A' <= c && c <= 'Z' {
        ((c as u8) + 32) as char
    } else {
        c
    }
}

pub fn to_ascii_lowercase_chars(s: &[char]) -> (out: Vec<char>)
    ensures
        out@ == to_ascii_lowercase(s@),
{
    let mut out: Vec<char> = Vec::new();
    let mut i: usize = 0;
    while i < s.len()
        invariant
            i <= s@.len(),
            out@ == to_ascii_lowercase(s@.take(i as int)),
        decreases s@.len() - i,
    {
        out.push(ascii_lower_char(s[i]));
        i += 1;
        assert(out@ =~= to_ascii_lowercase(s@.take(i as int)));
    }
    assert(s@.take(s@.len() as int) =~= s@);
    out
}


// ── Numbers ──────────────────────────────────────────────────────────────────

/// The decimal digit character for `d < 10`.
pub open spec fn digit_char(d: nat) -> char {
    if d == 0 {
        '0'
    } else if d == 1 {
        '1'
    } else if d == 2 {
        '2'
    } else if d == 3 {
        '3'
    } else if d == 4 {
        '4'
    } else if d == 5 {
        '5'
    } else if d == 6 {
        '6'
    } else if d == 7 {
        '7'
    } else if d == 8 {
        '8'
    } else {
        '9'
    }
}

/// The decimal representation of `n`, without sign or leading zeros
/// (as `Display` for unsigned integers).
pub open spec fn decimal(n: nat) -> Seq<char>
    decreases n,
{
    if n < 10 {
        seq![digit_char(n)]
    } else {
        decimal(n / 10).push(digit_char(n % 10))
    }
}

/// A decimal digit character is an ASCII digit whose value is the digit.
pub proof fn lemma_digit_char(d: nat)
    requires
        d < 10,
    ensures
        48 <= digit_char(d) as u32 <= 57,
        digit_value(digit_char(d), 10) == Some(d),
{
}

/// The decimal text of `n` is a non-empty run of ASCII digits that reads
/// back as `n`.
pub proof fn lemma_decimal_digits(n: nat)
    ensures
        decimal(n).len() > 0,
        forall|i: int| 0 <= i < decimal(n).len() ==> 48 <= (#[trigger] decimal(n)[i]) as u32 <= 57,
        digits_value(decimal(n), 10) == n,
    decreases n,
{
    if n < 10 {
        lemma_digit_char(n);
        let d = decimal(n);
        assert(d.drop_last() =~= Seq::<char>::empty());
        assert(d.last() == digit_char(n));
        assert(digits_value(d.drop_last(), 10) == 0);
        assert(digits_value(d, 10) == digits_value(d.drop_last(), 10) * 10 + n);
    } else {
        lemma_decimal_digits(n / 10);
        lemma_digit_char(n % 10);
        let d = decimal(n);
        assert(d.drop_last() =~= decimal(n / 10));
        assert(d.last() == digit_char(n % 10));
        assert(digits_value(d, 10) == digits_value(decimal(n / 10), 10) * 10 + n % 10);
        assert(n == (n / 10) * 10 + n % 10);
    }
}

fn digit_char_exec(d: u64) -> (c: char)
    requires
        d < 10,
    ensures
        c == digit_char(d as nat),
{
    if d == 0 {
        '0'
    } else if d == 1 {
        '1'
    } else if d == 2 {
        '2'
    } else if d == 3 {
        '3'
    } else if d == 4 {
        '4'
    } else if d == 5 {
        '5'
    } else if d == 6 {
        '6'
    } else if d == 7 {
        '7'
    } else if d == 8 {
        '8'
    } else {
        '9'
    }
}

/// Appends the decimal representation of `n` to `out`.
pub fn push_decimal(out: &mut Vec<char>, n: u64)
    ensures
        final(out)@ == old(out)@ + decimal(n as nat),
    decreases n,
{
    if n >= 10 {
        push_decimal(out, n / 10);
    }
    out.push(digit_char_exec(n % 10));
    assert(final(out)@ =~= old(out)@ + decimal(n as nat));
}

/// The value of an ASCII digit character in the given radix, if it is one
/// (as `char::to_digit` for radix 10 and 16).
pub open spec fn digit_value(c: char, radix: nat) -> Option<nat> {
    let u = c as u32;
    let v: int = if 48 <= u && u <= 57 {
        u - 48
    } else if 97 <= u && u <= 122 {
        u - 97 + 10
    } else if 65 <= u && u <= 90 {
        u - 65 + 10
    } else {
        99
    };
    if v < radix {
        Some(v as nat)
    } else {
        None
    }
}

/// Every character of `d` is a digit of the radix.
pub open spec fn all_digits(d: Seq<char>, radix: nat) -> bool {
    forall|i: int| 0 <= i < d.len() ==> (#[trigger] digit_value(d[i], radix)) is Some
}

/// The number written by the digits `d`, most significant first.
pub open spec fn digits_value(d: Seq<char>, radix: nat) -> nat
    decreases d.len(),
{
    if d.len() == 0 {
        0
    } else {
        digits_value(d.drop_last(), radix) * radix + match digit_value(d.last(), radix) {
            Some(v) => v,
            None => 0,
        }
    }
}

/// The unsigned number that `s` spells in the radix, if it spells one that
/// is at most `max` (as `from_str_radix` and `str::parse` for unsigned
/// integer types): an optional leading `+`, then one or more digits.
pub open spec fn parse_unsigned(s: Seq<char>, radix: nat, max: nat) -> Option<nat> {
    let d = if s.len() > 0 && s[0] == '+' {
        s.skip(1)
    } else {
        s
    };
    if d.len() == 0 || !all_digits(d, radix) {
        None
    } else if digits_value(d, radix) <= max {
        Some(digits_value(d, radix))
    } else {
        None
    }
}

fn digit_value_exec(c: char, radix: u64) -> (r: Option<u64>)
    requires
        2 <= radix <= 36,
    ensures
        r matches Some(v) ==> digit_value(c, radix as nat) == Some(v as nat) && v < radix,
        r is None ==> digit_value(c, radix as nat) is None,
{
    let u = c as u32;
    let v: u64 = if 48 <= u && u <= 57 {
        (u - 48) as u64
    } else if 97 <= u && u <= 122 {
        (u - 97 + 10) as u64
    } else if 65 <= u && u <= 90 {
        (u - 65 + 10) as u64
    } else {
        99
    };
    if v < radix {
        Some(v)
    } else {
        None
    }
}

proof fn lemma_digits_value_monotonic(d: Seq<char>, radix: nat, i: int, j: int)
    requires
        radix >= 1,
        0 <= i <= j <= d.len(),
    ensures
        digits_value(d.take(i), radix) <= digits_value(d.take(j), radix),
    decreases j - i,
{
    if i < j {
        lemma_digits_value_monotonic(d, radix, i, j - 1);
        assert(d.take(j).drop_last() =~= d.take(j - 1));
        let a = digits_value(d.take(j - 1), radix);
        assert(a * radix >= a) by (nonlinear_arith)
            requires
                radix >= 1,
        ;
    }
}

/// Parses `s` as an unsigned number in the radix, at most `max`.
pub fn parse_unsigned_chars(s: &[char], radix: u64, max: u64) -> (r: Option<u64>)
    requires
        2 <= radix <= 36,
    ensures
        r matches Some(v) ==> parse_unsigned(s@, radix as nat, max as nat) == Some(v as nat),
        r is None ==> parse_unsigned(s@, radix as nat, max as nat) is None,
{
    let start: usize = if s.len() > 0 && s[0] == '+' {
        1
    } else {
        0
    };
    let ghost d = if s@.len() > 0 && s@[0] == '+' {
        s@.skip(1)
    } else {
        s@
    };
    assert(d =~= s@.skip(start as int));
    if start >= s.len() {
        return None;
    }
    let mut acc: u128 = 0;
    let mut i: usize = start;
    assert(d.take(0) =~= Seq::<char>::empty());
    while i < s.len()
        invariant
            2 <= radix <= 36,
            start <= i <= s@.len(),
            d == s@.skip(start as int),
            d == (if s@.len() > 0 && s@[0] == '+' {
                s@.skip(1)
            } else {
                s@
            }),
            d.len() > 0,
            acc <= max,
            acc as nat == digits_value(d.take(i - start), radix as nat),
            forall|k: int| 0 <= k < i - start ==> (#[trigger] digit_value(d[k], radix as nat)) is Some,
        decreases s@.len() - i,
    {
        let dv = digit_value_exec(s[i], radix);
        match dv {
            None => {
                assert(d[i - start] == s@[i as int]);
                assert(digit_value(d[i - start], radix as nat) is None);
                assert(!all_digits(d, radix as nat));
                return None;
            },
            Some(v) => {
                assert(d[i - start] == s@[i as int]);
                assert(d.take(i - start + 1).drop_last() =~= d.take(i - start));
                assert(d.take(i - start + 1).last() == d[i - start]);
                assert(digits_value(d.take(i - start + 1), radix as nat) == acc * radix + v);
                assert(acc * radix + v <= u64::MAX as u128 * 36 + 36) by (nonlinear_arith)
                    requires
                        acc <= u64::MAX,
                        radix <= 36,
                        v < radix,
                ;
                let next = acc * (radix as u128) + (v as u128);
                if next > max as u128 {
                    proof {
                        lemma_digits_value_monotonic(d, radix as nat, i - start + 1, d.len() as int);
                        assert(d.take(d.len() as int) =~= d);
                    }
                    return None;
                }
                acc = next;
                i += 1;
            },
        }
    }
    assert(d.take(d.len() as int) =~= d);
    Some(acc as u64)
}


// ── Unicode case ─────────────────────────────────────────────────────────────

/// The full Unicode lower-case mapping of a string, as `str::to_lowercase`
/// computes it.
pub uninterp spec fn unicode_lowercase(s: Seq<char>) -> Seq<char>;

/// Calls `str::to_lowercase`. The contract claims only that the result is a
/// function of the input's characters; the Unicode mapping itself is not
/// stated.
#[verifier::external_body]
pub(crate) fn to_lowercase(s: &str) -> (r: String)
    ensures
        r@ == unicode_lowercase(s@),
{
    s.to_lowercase()
}

} // verus!
