//! Text primitives over sequences of characters: the line, token and
//! separator splitting, trimming and matching that the parsers of this
//! crate are built from. Each has a spec function that states what it
//! computes and an executable function proved against it.
use vstd::prelude::*;

verus! {

// ------------------------------------------------------------------
// Conversions between `str`/`String` and character vectors
// ------------------------------------------------------------------

/// The characters of `s`, in order.
pub fn str_chars(s: &str) -> (v: Vec<char>)
    ensures
        v@ == s@,
{
    let mut v: Vec<char> = Vec::new();
    for c in it: s.chars()
        invariant
            v@ == it.seq().take(it.index() as int),
    {
        v.push(c);
    }
    v
}

/// Appends one character to a string (`String::push`).
#[verifier::external_body]
pub(crate) fn string_push(s: &mut String, c: char)
    ensures
        final(s)@ == old(s)@.push(c),
{
    s.push(c);
}

/// A `String` holding exactly the characters `v`.
pub fn chars_to_string(v: &[char]) -> (s: String)
    ensures
        s@ == v@,
{
    let mut s = String::new();
    let mut i: usize = 0;
    while i < v.len()
        invariant
            i <= v.len(),
            s@ == v@.take(i as int),
        decreases v.len() - i,
    {
        string_push(&mut s, v[i]);
        i = i + 1;
        assert(v@.take(i as int) =~= v@.take((i - 1) as int).push(v@[i - 1]));
    }
    assert(v@.take(v.len() as int) =~= v@);
    s
}

/// Appends the characters `v` to `s`.
pub fn append_chars(s: &mut String, v: &[char])
    ensures
        final(s)@ == old(s)@ + v@,
{
    let mut i: usize = 0;
    while i < v.len()
        invariant
            i <= v.len(),
            s@ == old(s)@ + v@.take(i as int),
        decreases v.len() - i,
    {
        string_push(s, v[i]);
        i = i + 1;
        assert(v@.take(i as int) =~= v@.take((i - 1) as int).push(v@[i - 1]));
    }
    assert(v@.take(v.len() as int) =~= v@);
}

/// Appends the characters of `t` to `s`.
pub fn append_str(s: &mut String, t: &str)
    ensures
        final(s)@ == old(s)@ + t@,
{
    let v = str_chars(t);
    append_chars(s, v.as_slice());
}

/// A copy of `v`.
pub fn copy_chars(v: &[char]) -> (r: Vec<char>)
    ensures
        r@ == v@,
{
    let mut r: Vec<char> = Vec::new();
    let mut i: usize = 0;
    while i < v.len()
        invariant
            i <= v.len(),
            r@ == v@.take(i as int),
        decreases v.len() - i,
    {
        r.push(v[i]);
        i = i + 1;
        assert(v@.take(i as int) =~= v@.take((i - 1) as int).push(v@[i - 1]));
    }
    assert(v@.take(v.len() as int) =~= v@);
    r
}

/// The characters `v[lo..hi]`.
pub fn sub_chars(v: &[char], lo: usize, hi: usize) -> (r: Vec<char>)
    requires
        lo <= hi <= v.len(),
    ensures
        r@ == v@.subrange(lo as int, hi as int),
{
    let mut r: Vec<char> = Vec::new();
    let mut i: usize = lo;
    while i < hi
        invariant
            lo <= i <= hi <= v.len(),
            r@ == v@.subrange(lo as int, i as int),
        decreases hi - i,
    {
        r.push(v[i]);
        i = i + 1;
        assert(v@.subrange(lo as int, i as int) =~= v@.subrange(lo as int, (i - 1) as int).push(
            v@[i - 1],
        ));
    }
    r
}

/// Whether `a` and `b` hold the same characters.
pub fn chars_eq(a: &[char], b: &[char]) -> (r: bool)
    ensures
        r == (a@ == b@),
{
    if a.len() != b.len() {
        return false;
    }
    let mut i: usize = 0;
    while i < a.len()
        invariant
            a.len() == b.len(),
            i <= a.len(),
            forall|j: int| 0 <= j < i ==> a@[j] == b@[j],
        decreases a.len() - i,
    {
        if a[i] != b[i] {
            return false;
        }
        i = i + 1;
    }
    assert(a@ =~= b@);
    true
}

// ------------------------------------------------------------------
// Whitespace and trimming
// ------------------------------------------------------------------

/// Unicode `White_Space`, the property that `char::is_whitespace` tests.
pub open spec fn is_ws(c: char) -> bool {
    let u = c as u32;
    ||| 9 <= u <= 13
    ||| u == 32
    ||| u == 0x85
    ||| u == 0xa0
    ||| u == 0x1680
    ||| 0x2000 <= u <= 0x200a
    ||| u == 0x2028
    ||| u == 0x2029
    ||| u == 0x202f
    ||| u == 0x205f
    ||| u == 0x3000
}

/// Whether `c` is whitespace.
pub fn is_whitespace(c: char) -> (r: bool)
    ensures
        r == is_ws(c),
{
    let u = c as u32;
    (9 <= u && u <= 13) || u == 32 || u == 0x85 || u == 0xa0 || u == 0x1680 || (0x2000 <= u && u
        <= 0x200a) || u == 0x2028 || u == 0x2029 || u == 0x202f || u == 0x205f || u == 0x3000
}

/// `s` without its leading whitespace.
pub open spec fn trim_start(s: Seq<char>) -> Seq<char>
    decreases s.len(),
{
    if s.len() > 0 && is_ws(s[0]) {
        trim_start(s.drop_first())
    } else {
        s
    }
}

/// `s` without its trailing whitespace.
pub open spec fn trim_end(s: Seq<char>) -> Seq<char>
    decreases s.len(),
{
    if s.len() > 0 && is_ws(s.last()) {
        trim_end(s.drop_last())
    } else {
        s
    }
}

/// `s` without leading and trailing whitespace (`str::trim`).
pub open spec fn trim(s: Seq<char>) -> Seq<char> {
    trim_end(trim_start(s))
}

proof fn lemma_trim_start_skip(s: Seq<char>, i: int)
    requires
        0 <= i <= s.len(),
        forall|j: int| 0 <= j < i ==> is_ws(s[j]),
    ensures
        trim_start(s) == trim_start(s.skip(i)),
    decreases i,
{
    if i > 0 {
        assert(s.skip(1) =~= s.drop_first());
        lemma_trim_start_skip(s.drop_first(), i - 1);
        assert(s.drop_first().skip(i - 1) =~= s.skip(i));
    } else {
        assert(s.skip(0) =~= s);
    }
}

proof fn lemma_trim_end_take(s: Seq<char>, k: int)
    requires
        0 <= k <= s.len(),
        forall|j: int| k <= j < s.len() ==> is_ws(s[j]),
    ensures
        trim_end(s) == trim_end(s.take(k)),
    decreases s.len() - k,
{
    if k < s.len() {
        lemma_trim_end_take(s.drop_last(), k);
        assert(s.drop_last().take(k) =~= s.take(k));
    } else {
        assert(s.take(k) =~= s);
    }
}

/// The characters of `v` without leading and trailing whitespace.
pub fn trim_chars(v: &[char]) -> (r: Vec<char>)
    ensures
        r@ == trim(v@),
{
    let mut lo: usize = 0;
    while lo < v.len() && is_whitespace(v[lo])
        invariant
            lo <= v.len(),
            forall|j: int| 0 <= j < lo ==> is_ws(v@[j]),
        decreases v.len() - lo,
    {
        lo = lo + 1;
    }
    proof {
        lemma_trim_start_skip(v@, lo as int);
        assert(trim_start(v@.skip(lo as int)) == v@.skip(lo as int));
    }
    let mut hi: usize = v.len();
    while hi > lo && is_whitespace(v[hi - 1])
        invariant
            lo <= hi <= v.len(),
            forall|j: int| hi <= j < v.len() ==> is_ws(v@[j]),
        decreases hi,
    {
        hi = hi - 1;
    }
    proof {
        let t = v@.skip(lo as int);
        lemma_trim_end_take(t, (hi - lo) as int);
        assert(t.take((hi - lo) as int) =~= v@.subrange(lo as int, hi as int));
    }
    sub_chars(v, lo, hi)
}

// ------------------------------------------------------------------
// Prefixes and substrings
// ------------------------------------------------------------------

/// Whether `s` starts with `p`.
pub open spec fn starts_with(s: Seq<char>, p: Seq<char>) -> bool {
    p.len() <= s.len() && s.take(p.len() as int) == p
}

/// Whether `p` occurs in `s` at index `j`.
pub open spec fn match_at(s: Seq<char>, p: Seq<char>, j: int) -> bool {
    0 <= j && j + p.len() <= s.len() && s.subrange(j, j + p.len()) == p
}

/// Whether `p` occurs in `s` (`str::contains`).
pub open spec fn contains(s: Seq<char>, p: Seq<char>) -> bool {
    exists|j: int| match_at(s, p, j)
}

/// Whether `p` occurs in `v` at index `j`.
pub fn chars_match_at(v: &[char], p: &[char], j: usize) -> (r: bool)
    ensures
        r == match_at(v@, p@, j as int),
{
    if j > v.len() || p.len() > v.len() - j {
        return false;
    }
    let mut k: usize = 0;
    while k < p.len()
        invariant
            j + p.len() <= v.len(),
            k <= p.len(),
            forall|t: int| 0 <= t < k ==> v@[j + t] == p@[t],
        decreases p.len() - k,
    {
        if v[j + k] != p[k] {
            assert(v@.subrange(j as int, j + p.len())[k as int] != p@[k as int]);
            return false;
        }
        k = k + 1;
    }
    assert(v@.subrange(j as int, j + p.len()) =~= p@);
    true
}

/// Whether `v` starts with `p`.
pub fn chars_starts_with(v: &[char], p: &[char]) -> (r: bool)
    ensures
        r == starts_with(v@, p@),
{
    let r = chars_match_at(v, p, 0);
    assert(v@.subrange(0, p@.len() as int) =~= v@.take(p@.len() as int));
    r
}

/// Whether `v` contains `p`.
pub fn chars_contains(v: &[char], p: &[char]) -> (r: bool)
    ensures
        r == contains(v@, p@),
{
    if p.len() > v.len() {
        return false;
    }
    if p.len() == 0 {
        assert(v@.subrange(0, 0) =~= p@);
        assert(match_at(v@, p@, 0));
        return true;
    }
    let mut j: usize = 0;
    while j <= v.len() - p.len()
        invariant
            0 < p.len() <= v.len(),
            j <= v.len() - p.len() + 1,
            forall|t: int| 0 <= t < j ==> !match_at(v@, p@, t),
        decreases v.len() - p.len() + 1 - j,
    {
        if chars_match_at(v, p, j) {
            return true;
        }
        j = j + 1;
    }
    false
}

/// `s` with every leading repetition of `p` removed (`str::trim_start_matches`).
pub open spec fn strip_prefixes(s: Seq<char>, p: Seq<char>) -> Seq<char>
    decreases s.len(),
{
    if p.len() > 0 && starts_with(s, p) {
        strip_prefixes(s.skip(p.len() as int), p)
    } else {
        s
    }
}

/// The characters of `v` with every leading repetition of `p` removed.
pub fn strip_prefixes_chars(v: &[char], p: &[char]) -> (r: Vec<char>)
    ensures
        r@ == strip_prefixes(v@, p@),
{
    let mut lo: usize = 0;
    if p.len() == 0 {
        return copy_chars(v);
    }
    assert(v@.skip(0) =~= v@);
    while chars_match_at(v, p, lo)
        invariant
            lo <= v.len(),
            p.len() > 0,
            strip_prefixes(v@, p@) == strip_prefixes(v@.skip(lo as int), p@),
        decreases v.len() - lo,
    {
        let ghost s = v@.skip(lo as int);
        assert(s.take(p@.len() as int) =~= v@.subrange(lo as int, lo + p@.len()));
        assert(s.skip(p@.len() as int) =~= v@.skip(lo + p@.len()));
        lo = lo + p.len();
    }
    proof {
        let s = v@.skip(lo as int);
        if p@.len() <= s.len() {
            assert(s.take(p@.len() as int) =~= v@.subrange(lo as int, lo + p@.len()));
        }
    }
    sub_chars(v, lo, v.len())
}

/// The character sequences held by a sequence of character vectors.
pub open spec fn views(v: Seq<Vec<char>>) -> Seq<Seq<char>> {
    v.map_values(|x: Vec<char>| x@)
}

pub proof fn lemma_views_push(v: Seq<Vec<char>>, x: Vec<char>)
    ensures
        views(v.push(x)) == views(v).push(x@),
{
    assert(views(v.push(x)) =~= views(v).push(x@));
}

// ------------------------------------------------------------------
// Splitting at a separator character
// ------------------------------------------------------------------

/// The pieces of `s` between occurrences of `sep` (`str::split` with a
/// character): always one more piece than there are separators.
pub open spec fn split_char(s: Seq<char>, sep: char) -> Seq<Seq<char>>
    decreases s.len(),
{
    if s.len() == 0 {
        seq![Seq::<char>::empty()]
    } else {
        let prev = split_char(s.drop_last(), sep);
        if s.last() == sep {
            prev.push(Seq::<char>::empty())
        } else {
            prev.update(prev.len() - 1, prev.last().push(s.last()))
        }
    }
}

pub proof fn lemma_split_char_nonempty(s: Seq<char>, sep: char)
    ensures
        split_char(s, sep).len() >= 1,
    decreases s.len(),
{
    if s.len() > 0 {
        lemma_split_char_nonempty(s.drop_last(), sep);
    }
}

/// The pieces of `v` between occurrences of `sep`.
pub fn split_chars(v: &[char], sep: char) -> (r: Vec<Vec<char>>)
    ensures
        views(r@) == split_char(v@, sep),
{
    let mut done: Vec<Vec<char>> = Vec::new();
    let mut cur: Vec<char> = Vec::new();
    let mut i: usize = 0;
    while i < v.len()
        invariant
            i <= v.len(),
            views(done@).push(cur@) == split_char(v@.take(i as int), sep),
        decreases v.len() - i,
    {
        let c = v[i];
        proof {
            let t = v@.take(i + 1);
            assert(t.drop_last() =~= v@.take(i as int));
            lemma_split_char_nonempty(v@.take(i as int), sep);
        }
        if c == sep {
            proof { lemma_views_push(done@, cur); }
            let piece = cur;
            done.push(piece);
            cur = Vec::new();
            assert(views(done@).push(cur@) =~= split_char(v@.take(i + 1), sep));
        } else {
            cur.push(c);
            assert(views(done@).push(cur@) =~= split_char(v@.take(i + 1), sep));
        }
        i = i + 1;
    }
    assert(v@.take(v.len() as int) =~= v@);
    proof { lemma_views_push(done@, cur); }
    done.push(cur);
    done
}

// ------------------------------------------------------------------
// Lines
// ------------------------------------------------------------------

/// `l` without one trailing carriage return.
pub open spec fn strip_cr(l: Seq<char>) -> Seq<char> {
    if l.len() > 0 && l.last() == '\r' {
        l.drop_last()
    } else {
        l
    }
}

/// The lines of `s` (`str::lines`): split at `\n`, a `\r` before the
/// `\n` dropped, and no final empty line when `s` ends with `\n`.
pub open spec fn lines(s: Seq<char>) -> Seq<Seq<char>> {
    let p = split_char(s, '\n');
    let body = p.drop_last().map_values(|l: Seq<char>| strip_cr(l));
    if p.last().len() == 0 {
        body
    } else {
        body.push(p.last())
    }
}

/// `l` without one trailing carriage return.
pub fn strip_cr_chars(l: Vec<char>) -> (r: Vec<char>)
    ensures
        r@ == strip_cr(l@),
{
    let mut l = l;
    if l.len() > 0 && l[l.len() - 1] == '\r' {
        l.pop();
    }
    l
}

/// The lines of `v`.
pub fn lines_chars(v: &[char]) -> (r: Vec<Vec<char>>)
    ensures
        views(r@) == lines(v@),
{
    let pieces = split_chars(v, '\n');
    let ghost p = split_char(v@, '\n');
    proof {
        lemma_split_char_nonempty(v@, '\n');
    }
    let n = pieces.len();
    let mut out: Vec<Vec<char>> = Vec::new();
    let mut i: usize = 0;
    while i + 1 < n
        invariant
            n == pieces.len() == p.len(),
            n >= 1,
            views(pieces@) == p,
            i + 1 <= n,
            views(out@) == p.take(i as int).map_values(|l: Seq<char>| strip_cr(l)),
        decreases n - i,
    {
        let piece = copy_chars(pieces[i].as_slice());
        let line = strip_cr_chars(piece);
        proof { lemma_views_push(out@, line); }
        out.push(line);
        assert(views(pieces@)[i as int] == pieces[i as int]@);
        assert(p.take(i + 1).map_values(|l: Seq<char>| strip_cr(l)) =~= p.take(
            i as int,
        ).map_values(|l: Seq<char>| strip_cr(l)).push(strip_cr(p[i as int])));
        i = i + 1;
    }
    assert(p.take(i as int) =~= p.drop_last());
    let last = copy_chars(pieces[n - 1].as_slice());
    assert(views(pieces@)[n - 1] == pieces[n - 1]@);
    if last.len() > 0 {
        proof { lemma_views_push(out@, last); }
        out.push(last);
    }
    out
}

// ------------------------------------------------------------------
// Whitespace-separated tokens
// ------------------------------------------------------------------

/// The maximal runs of non-whitespace characters of `s`, in order
/// (`str::split_whitespace`).
pub open spec fn ws_tokens(s: Seq<char>) -> Seq<Seq<char>>
    decreases s.len(),
{
    if s.len() == 0 {
        Seq::empty()
    } else {
        let prev = ws_tokens(s.drop_last());
        let c = s.last();
        if is_ws(c) {
            prev
        } else if s.len() >= 2 && !is_ws(s[s.len() - 2]) {
            prev.update(prev.len() - 1, prev.last().push(c))
        } else {
            prev.push(seq![c])
        }
    }
}

proof fn lemma_ws_tokens_nonempty(s: Seq<char>)
    requires
        s.len() > 0,
        !is_ws(s.last()),
    ensures
        ws_tokens(s).len() > 0,
    decreases s.len(),
{
    if s.len() >= 2 && !is_ws(s[s.len() - 2]) {
        lemma_ws_tokens_nonempty(s.drop_last());
    }
}

/// The whitespace-separated tokens of `v`.
pub fn ws_tokens_chars(v: &[char]) -> (r: Vec<Vec<char>>)
    ensures
        views(r@) == ws_tokens(v@),
{
    let mut done: Vec<Vec<char>> = Vec::new();
    let mut cur: Vec<char> = Vec::new();
    let mut i: usize = 0;
    while i < v.len()
        invariant
            i <= v.len(),
            cur@.len() > 0 <==> (i > 0 && !is_ws(v@[i - 1])),
            cur@.len() > 0 ==> views(done@).push(cur@) == ws_tokens(v@.take(i as int)),
            cur@.len() == 0 ==> views(done@) == ws_tokens(v@.take(i as int)),
        decreases v.len() - i,
    {
        let c = v[i];
        let ghost t = v@.take(i + 1);
        assert(t.drop_last() =~= v@.take(i as int));
        if is_whitespace(c) {
            if cur.len() > 0 {
                proof { lemma_views_push(done@, cur); }
                let piece = cur;
                done.push(piece);
                cur = Vec::new();
            }
        } else {
            let ghost old_cur = cur@;
            cur.push(c);
            if cur.len() > 1 {
                assert(t[t.len() - 2] == v@[i - 1]);
                let ghost prev = ws_tokens(v@.take(i as int));
                assert(prev == views(done@).push(old_cur));
                assert(prev.last() == old_cur);
                assert(ws_tokens(t) == prev.update(prev.len() - 1, old_cur.push(c)));
                assert(views(done@).push(cur@) =~= ws_tokens(t));
            } else {
                assert(i > 0 ==> t[t.len() - 2] == v@[i - 1]);
                assert(cur@ =~= seq![c]);
                assert(views(done@).push(cur@) =~= ws_tokens(t));
            }
        }
        i = i + 1;
    }
    assert(v@.take(v.len() as int) =~= v@);
    if cur.len() > 0 {
        proof { lemma_views_push(done@, cur); }
        done.push(cur);
    }
    done
}

// ------------------------------------------------------------------
// Splitting at a separator string, joining, replacing
// ------------------------------------------------------------------

/// The index of the first occurrence of `p` in `s`.
pub open spec fn find(s: Seq<char>, p: Seq<char>) -> Option<int>
    decreases s.len(),
{
    if p.len() == 0 || s.len() < p.len() {
        None
    } else if s.take(p.len() as int) == p {
        Some(0)
    } else {
        match find(s.drop_first(), p) {
            Some(i) => Some(i + 1),
            None => None,
        }
    }
}

proof fn lemma_match_at_drop_first(s: Seq<char>, p: Seq<char>, j: int)
    requires
        s.len() > 0,
        0 <= j,
    ensures
        match_at(s.drop_first(), p, j) == match_at(s, p, j + 1),
{
    if j + p.len() <= s.drop_first().len() {
        assert(s.drop_first().subrange(j, j + p.len()) =~= s.subrange(j + 1, j + 1 + p.len()));
    }
}

/// `find` gives the first occurrence, and `None` when there is none.
pub proof fn lemma_find(s: Seq<char>, p: Seq<char>)
    requires
        p.len() > 0,
    ensures
        match find(s, p) {
            Some(i) => match_at(s, p, i) && forall|j: int| 0 <= j < i ==> !match_at(s, p, j),
            None => forall|j: int| !match_at(s, p, j),
        },
    decreases s.len(),
{
    if s.len() < p.len() {
    } else if s.take(p.len() as int) == p {
        assert(s.subrange(0, p.len() as int) =~= s.take(p.len() as int));
    } else {
        assert(s.subrange(0, p.len() as int) =~= s.take(p.len() as int));
        lemma_find(s.drop_first(), p);
        assert forall|j: int| 0 <= j implies match_at(s.drop_first(), p, j) == match_at(
            s,
            p,
            j + 1,
        ) by {
            lemma_match_at_drop_first(s, p, j);
        }
        match find(s.drop_first(), p) {
            Some(i) => {
                assert forall|j: int| 0 <= j < i + 1 implies !match_at(s, p, j) by {
                    if j > 0 {
                        lemma_match_at_drop_first(s, p, j - 1);
                    }
                }
            },
            None => {
                assert forall|j: int| !match_at(s, p, j) by {
                    if j > 0 {
                        lemma_match_at_drop_first(s, p, j - 1);
                    }
                }
            },
        }
    }
}

/// The pieces of `s` between the non-overlapping occurrences of `p`,
/// found from the left (`str::split` with a string pattern).
pub open spec fn split_str(s: Seq<char>, p: Seq<char>) -> Seq<Seq<char>>
    decreases s.len(),
{
    if p.len() == 0 {
        seq![s]
    } else {
        match find(s, p) {
            Some(i) => if 0 <= i && i + p.len() <= s.len() {
                seq![s.take(i)] + split_str(s.skip(i + p.len()), p)
            } else {
                seq![s]
            },
            None => seq![s],
        }
    }
}

proof fn lemma_match_at_skip(s: Seq<char>, p: Seq<char>, k: int, j: int)
    requires
        0 <= k <= s.len(),
        k <= j,
    ensures
        match_at(s.skip(k), p, j - k) == match_at(s, p, j),
{
    if j + p.len() <= s.len() {
        assert(s.skip(k).subrange(j - k, j - k + p.len()) =~= s.subrange(j, j + p.len()));
    }
}

/// The pieces of `v` between the occurrences of `p`.
pub fn split_str_chars(v: &[char], p: &[char]) -> (r: Vec<Vec<char>>)
    requires
        p@.len() > 0,
    ensures
        views(r@) == split_str(v@, p@),
{
    let mut parts: Vec<Vec<char>> = Vec::new();
    let mut start: usize = 0;
    let mut i: usize = 0;
    assert(v@.skip(0) =~= v@);
    while p.len() <= v.len() && i <= v.len() - p.len()
        invariant
            p@.len() > 0,
            start <= i <= v.len(),
            views(parts@) + split_str(v@.skip(start as int), p@) == split_str(v@, p@),
            forall|j: int| start <= j < i ==> !match_at(v@, p@, j),
        decreases v.len() - i,
    {
        if chars_match_at(v, p, i) {
            let ghost s = v@.skip(start as int);
            proof {
                lemma_find(s, p@);
                lemma_match_at_skip(v@, p@, start as int, i as int);
                assert forall|j: int| 0 <= j < i - start implies !match_at(s, p@, j) by {
                    lemma_match_at_skip(v@, p@, start as int, j + start);
                }
                match find(s, p@) {
                    Some(k) => {
                        if k < i - start {
                        } else if k > i - start {
                        }
                        assert(k == i - start);
                    },
                    None => {
                        assert(false);
                    },
                }
                assert(s.take(i - start) =~= v@.subrange(start as int, i as int));
                assert(s.skip(i - start + p@.len()) =~= v@.skip(i + p@.len()));
            }
            let piece = sub_chars(v, start, i);
            proof {
                lemma_views_push(parts@, piece);
            }
            let ghost old_parts = views(parts@);
            parts.push(piece);
            assert(views(parts@) + split_str(v@.skip(i + p@.len()), p@) =~= old_parts + split_str(
                s,
                p@,
            ));
            start = i + p.len();
            i = start;
        } else {
            i = i + 1;
        }
    }
    proof {
        let s = v@.skip(start as int);
        lemma_find(s, p@);
        assert forall|j: int| !match_at(s, p@, j) by {
            if 0 <= j {
                lemma_match_at_skip(v@, p@, start as int, j + start);
            }
        }
        match find(s, p@) {
            Some(k) => {
                assert(match_at(s, p@, k));
            },
            None => {},
        }
        assert(s =~= v@.subrange(start as int, v@.len() as int));
    }
    let last = sub_chars(v, start, v.len());
    proof {
        lemma_views_push(parts@, last);
    }
    let ghost old_parts = views(parts@);
    parts.push(last);
    assert(views(parts@) =~= old_parts + split_str(v@.skip(start as int), p@));
    parts
}

/// The pieces `parts` with `sep` between each two neighbours.
pub open spec fn join(parts: Seq<Seq<char>>, sep: Seq<char>) -> Seq<char>
    decreases parts.len(),
{
    if parts.len() == 0 {
        Seq::empty()
    } else if parts.len() == 1 {
        parts[0]
    } else {
        join(parts.drop_last(), sep) + sep + parts.last()
    }
}

/// The pieces `parts` joined by `sep`.
pub fn join_chars(parts: &Vec<Vec<char>>, sep: &[char]) -> (r: Vec<char>)
    ensures
        r@ == join(views(parts@), sep@),
{
    let mut out: Vec<char> = Vec::new();
    let mut i: usize = 0;
    while i < parts.len()
        invariant
            i <= parts.len(),
            out@ == join(views(parts@).take(i as int), sep@),
        decreases parts.len() - i,
    {
        let ghost before = out@;
        if i > 0 {
            out.extend_from_slice(sep);
        }
        out.extend_from_slice(parts[i].as_slice());
        proof {
            let t = views(parts@).take(i + 1);
            assert(t.drop_last() =~= views(parts@).take(i as int));
            if i == 0 {
                assert(out@ =~= t[0]);
            } else {
                assert(out@ =~= before + sep@ + t.last());
            }
        }
        i = i + 1;
    }
    assert(views(parts@).take(parts.len() as int) =~= views(parts@));
    out
}

/// `s` with every non-overlapping occurrence of `from`, found from the
/// left, replaced by `to` (`str::replace`).
pub open spec fn replace(s: Seq<char>, from: Seq<char>, to: Seq<char>) -> Seq<char> {
    join(split_str(s, from), to)
}

/// The characters of `v` with each occurrence of `from` replaced by `to`.
pub fn replace_chars(v: &[char], from: &[char], to: &[char]) -> (r: Vec<char>)
    requires
        from@.len() > 0,
    ensures
        r@ == replace(v@, from@, to@),
{
    let parts = split_str_chars(v, from);
    join_chars(&parts, to)
}

// ------------------------------------------------------------------
// Sequences of strings
// ------------------------------------------------------------------

/// The character sequences held by a sequence of strings.
pub open spec fn string_views(v: Seq<String>) -> Seq<Seq<char>> {
    v.map_values(|x: String| x@)
}

pub proof fn lemma_string_views_push(v: Seq<String>, x: String)
    ensures
        string_views(v.push(x)) == string_views(v).push(x@),
{
    assert(string_views(v.push(x)) =~= string_views(v).push(x@));
}

/// Each character vector of `v` as a `String`.
pub fn to_strings(v: &Vec<Vec<char>>) -> (r: Vec<String>)
    ensures
        string_views(r@) == views(v@),
{
    let mut r: Vec<String> = Vec::new();
    let mut i: usize = 0;
    while i < v.len()
        invariant
            i <= v.len(),
            string_views(r@) == views(v@).take(i as int),
        decreases v.len() - i,
    {
        let s = chars_to_string(v[i].as_slice());
        proof {
            lemma_string_views_push(r@, s);
        }
        r.push(s);
        assert(views(v@).take(i + 1) =~= views(v@).take(i as int).push(v@[i as int]@));
        i = i + 1;
    }
    assert(views(v@).take(v.len() as int) =~= views(v@));
    r
}

/// A separator character that occurs in `s` splits it in at least two.
pub proof fn lemma_split_char_two(s: Seq<char>, c: char)
    requires
        contains(s, seq![c]),
    ensures
        split_char(s, c).len() >= 2,
{
    let j = choose|j: int| match_at(s, seq![c], j);
    assert(s.subrange(j, j + 1)[0] == s[j]);
    lemma_split_char_has(s, c, j);
}

proof fn lemma_split_char_has(s: Seq<char>, c: char, j: int)
    requires
        0 <= j < s.len(),
        s[j] == c,
    ensures
        split_char(s, c).len() >= 2,
    decreases s.len(),
{
    lemma_split_char_nonempty(s.drop_last(), c);
    if j < s.len() - 1 {
        lemma_split_char_has(s.drop_last(), c, j);
    }
}

/// Splitting at `sep` a text made of `a`, `sep` and `b` gives the pieces
/// of `a` followed by those of `b`.
pub proof fn lemma_split_char_concat(a: Seq<char>, b: Seq<char>, sep: char)
    ensures
        split_char(a.push(sep) + b, sep) == split_char(a, sep) + split_char(b, sep),
    decreases b.len(),
{
    let s = a.push(sep) + b;
    if b.len() == 0 {
        assert(s =~= a.push(sep));
        assert(s.drop_last() =~= a);
        assert(split_char(b, sep) =~= seq![Seq::<char>::empty()]);
        assert(split_char(a, sep).push(Seq::<char>::empty()) =~= split_char(a, sep) + split_char(b, sep));
    } else {
        lemma_split_char_concat(a, b.drop_last(), sep);
        lemma_split_char_nonempty(b.drop_last(), sep);
        assert(s.drop_last() =~= a.push(sep) + b.drop_last());
        assert(s.last() == b.last());
        let x = split_char(a, sep);
        let y = split_char(b.drop_last(), sep);
        if b.last() == sep {
            assert((x + y).push(Seq::<char>::empty()) =~= x + y.push(Seq::<char>::empty()));
        } else {
            let xy = x + y;
            assert(xy.update(xy.len() - 1, xy.last().push(b.last())) =~= x + y.update(
                y.len() - 1,
                y.last().push(b.last()),
            ));
        }
    }
}

proof fn lemma_trim_start_drop_last(s: Seq<char>)
    requires
        s.len() > 0,
        is_ws(s.last()),
    ensures
        trim_start(s) == (if trim_start(s.drop_last()).len() == 0 {
            Seq::<char>::empty()
        } else {
            trim_start(s.drop_last()).push(s.last())
        }),
    decreases s.len(),
{
    if s.len() == 1 {
        assert(s.drop_first() =~= Seq::<char>::empty());
        assert(s.drop_last() =~= Seq::<char>::empty());
        assert(trim_start(s) == trim_start(s.drop_first()));
    } else if is_ws(s[0]) {
        lemma_trim_start_drop_last(s.drop_first());
        assert(s.drop_first().drop_last() =~= s.drop_last().drop_first());
        assert(s.drop_last()[0] == s[0]);
        assert(s.drop_first().last() == s.last());
        assert(trim_start(s) == trim_start(s.drop_first()));
        assert(trim_start(s.drop_last()) == trim_start(s.drop_last().drop_first()));
    } else {
        assert(s.drop_last()[0] == s[0]);
        assert(s.drop_last().push(s.last()) =~= s);
    }
}

/// Trimming does not see one trailing whitespace character.
pub proof fn lemma_trim_drop_last_ws(s: Seq<char>)
    requires
        s.len() > 0,
        is_ws(s.last()),
    ensures
        trim(s.drop_last()) == trim(s),
{
    lemma_trim_start_drop_last(s);
    let t = trim_start(s.drop_last());
    if t.len() > 0 {
        assert(t.push(s.last()).drop_last() =~= t);
    }
}

proof fn lemma_find_is(s: Seq<char>, p: Seq<char>, i: int)
    requires
        p.len() > 0,
        match_at(s, p, i),
        forall|j: int| 0 <= j < i ==> !match_at(s, p, j),
    ensures
        find(s, p) == Some(i),
{
    lemma_find(s, p);
}

proof fn lemma_match_at_prefix(s: Seq<char>, q: Seq<char>, p: Seq<char>, j: int)
    requires
        0 <= j,
        j + p.len() <= s.len(),
    ensures
        match_at(s + q, p, j) == match_at(s, p, j),
{
    assert((s + q).subrange(j, j + p.len()) =~= s.subrange(j, j + p.len()));
}

/// Splitting at `p` a text made of `s`, `p` and `t` gives the pieces of
/// `s` followed by those of `t`, where no occurrence of `p` starts in `s`
/// and runs past its end.
pub proof fn lemma_split_str_concat(s: Seq<char>, t: Seq<char>, p: Seq<char>)
    requires
        p.len() > 0,
        forall|j: int| 0 <= j < s.len() < j + p.len() ==> !match_at(s + p + t, p, j),
    ensures
        split_str(s + p + t, p) == split_str(s, p) + split_str(t, p),
    decreases s.len(),
{
    let x = s + p + t;
    lemma_find(s, p);
    assert forall|j: int| 0 <= j < s.len() && !match_at(s, p, j) implies !match_at(x, p, j) by {
        if j + p.len() <= s.len() {
            lemma_match_at_prefix(s, p + t, p, j);
            assert(s + p + t =~= s + (p + t));
        }
    }
    match find(s, p) {
        Some(i) => {
            lemma_match_at_prefix(s, p + t, p, i);
            assert(s + p + t =~= s + (p + t));
            lemma_find_is(x, p, i);
            let rest = s.skip(i + p.len());
            assert(x.take(i) =~= s.take(i));
            assert(x.skip(i + p.len()) =~= rest + p + t);
            assert forall|j: int| 0 <= j < rest.len() < j + p.len() implies !match_at(rest + p + t, p, j) by {
                lemma_match_at_skip(x, p, i + p.len(), j + i + p.len());
            }
            lemma_split_str_concat(rest, t, p);
            assert(split_str(x, p) =~= seq![s.take(i)] + (split_str(rest, p) + split_str(t, p)));
        },
        None => {
            assert(x.subrange(s.len() as int, (s.len() + p.len()) as int) =~= p);
            lemma_find_is(x, p, s.len() as int);
            assert(x.take(s.len() as int) =~= s);
            assert(x.skip((s.len() + p.len()) as int) =~= t);
        },
    }
}

/// A run of characters none of which is whitespace is one token.
pub proof fn lemma_ws_tokens_word(w: Seq<char>)
    requires
        w.len() > 0,
        forall|i: int| 0 <= i < w.len() ==> !is_ws(w[i]),
    ensures
        ws_tokens(w) == seq![w],
    decreases w.len(),
{
    if w.len() == 1 {
        assert(w.drop_last() =~= Seq::<char>::empty());
        assert(seq![w.last()] =~= w);
        assert(ws_tokens(w.drop_last()) == Seq::<Seq<char>>::empty());
        assert(Seq::<Seq<char>>::empty().push(seq![w.last()]) =~= seq![w]);
    } else {
        lemma_ws_tokens_word(w.drop_last());
        assert(w.drop_last().push(w.last()) =~= w);
        assert(w[w.len() - 2] == w.drop_last()[w.len() - 2]);
        assert(seq![w.drop_last()].update(0, w.drop_last().push(w.last())) =~= seq![w]);
    }
}

/// The tokens of two texts joined by a space are those of the first
/// followed by those of the second.
pub proof fn lemma_ws_tokens_join(a: Seq<char>, b: Seq<char>)
    ensures
        ws_tokens(a + seq![' '] + b) == ws_tokens(a) + ws_tokens(b),
    decreases b.len(),
{
    let s = a + seq![' '] + b;
    assert(is_ws(' '));
    if b.len() == 0 {
        assert(s.drop_last() =~= a);
        assert(ws_tokens(a) + ws_tokens(b) =~= ws_tokens(a));
    } else {
        lemma_ws_tokens_join(a, b.drop_last());
        assert(s.drop_last() =~= a + seq![' '] + b.drop_last());
        assert(s.last() == b.last());
        let x = ws_tokens(a);
        let y = ws_tokens(b.drop_last());
        let c = b.last();
        if !is_ws(c) {
            if b.len() >= 2 {
                assert(s[s.len() - 2] == b[b.len() - 2]);
                if !is_ws(b[b.len() - 2]) {
                    assert(b.drop_last().last() == b[b.len() - 2]);
                    lemma_ws_tokens_nonempty(b.drop_last());
                    assert((x + y).update((x + y).len() - 1, (x + y).last().push(c)) =~= x + y.update(
                        y.len() - 1,
                        y.last().push(c),
                    ));
                } else {
                    assert((x + y).push(seq![c]) =~= x + y.push(seq![c]));
                }
            } else {
                assert(s[s.len() - 2] == ' ');
                assert(b.drop_last() =~= Seq::<char>::empty());
                assert((x + y).push(seq![c]) =~= x + y.push(seq![c]));
            }
        }
    }
}

/// A text without `sep` is one piece.
pub proof fn lemma_split_char_none(s: Seq<char>, sep: char)
    requires
        forall|i: int| 0 <= i < s.len() ==> s[i] != sep,
    ensures
        split_char(s, sep) == seq![s],
    decreases s.len(),
{
    if s.len() == 0 {
        assert(s =~= Seq::<char>::empty());
    } else {
        lemma_split_char_none(s.drop_last(), sep);
        assert(s.last() == s[s.len() - 1]);
        assert(s.drop_last().push(s.last()) =~= s);
        assert(seq![s.drop_last()].update(0, s.drop_last().push(s.last())) =~= seq![s]);
    }
}

/// The lines of two lines, each ended by `\n`, are those two, where
/// neither holds a `\n` or ends with `\r`.
pub proof fn lemma_lines_two(a: Seq<char>, b: Seq<char>)
    requires
        forall|i: int| 0 <= i < a.len() ==> a[i] != '\n',
        forall|i: int| 0 <= i < b.len() ==> b[i] != '\n',
        strip_cr(a) == a,
        strip_cr(b) == b,
    ensures
        lines(a + seq!['\n'] + b + seq!['\n']) == seq![a, b],
{
    let e = Seq::<char>::empty();
    lemma_split_char_none(a, '\n');
    lemma_split_char_none(b, '\n');
    lemma_split_char_concat(b, e, '\n');
    assert(split_char(e, '\n') =~= seq![e]);
    assert(b.push('\n') + e =~= b + seq!['\n']);
    lemma_split_char_concat(a, b + seq!['\n'], '\n');
    assert(a.push('\n') + (b + seq!['\n']) =~= a + seq!['\n'] + b + seq!['\n']);
    let p = split_char(a + seq!['\n'] + b + seq!['\n'], '\n');
    assert(p =~= seq![a, b, e]);
    assert(p.drop_last() =~= seq![a, b]);
    assert(p.drop_last().map_values(|l: Seq<char>| strip_cr(l)) =~= seq![a, b]);
}

/// Words without whitespace, joined by single spaces, are read back as
/// the same tokens.
pub proof fn lemma_ws_tokens_spaced(ws: Seq<Seq<char>>)
    requires
        ws.len() >= 1,
        forall|i: int| 0 <= i < ws.len() ==> (#[trigger] ws[i]).len() > 0,
        forall|i: int, j: int| 0 <= i < ws.len() && 0 <= j < ws[i].len() ==> !is_ws(#[trigger] ws[i][j]),
    ensures
        ws_tokens(join(ws, seq![' '])) == ws,
        ws[0].len() <= join(ws, seq![' ']).len(),
        join(ws, seq![' ']).take(ws[0].len() as int) == ws[0],
    decreases ws.len(),
{
    let w = ws[0];
    assert(w.len() > 0);
    if ws.len() == 1 {
        lemma_ws_tokens_word(w);
        assert(seq![w] =~= ws);
        assert(w.take(w.len() as int) =~= w);
    } else {
        let front = ws.drop_last();
        assert forall|i: int| 0 <= i < front.len() implies (#[trigger] front[i]).len() > 0 by {
            assert(front[i] == ws[i]);
        }
        assert forall|i: int, j: int| 0 <= i < front.len() && 0 <= j < front[i].len() implies !is_ws(
            #[trigger] front[i][j],
        ) by {
            assert(front[i] == ws[i]);
        }
        lemma_ws_tokens_spaced(front);
        let last = ws.last();
        assert(last == ws[ws.len() - 1]);
        lemma_ws_tokens_word(last);
        lemma_ws_tokens_join(join(front, seq![' ']), last);
        assert(front + seq![last] =~= ws);
        let a = join(front, seq![' ']);
        assert(front[0] == w);
        assert((a + seq![' '] + last).take(w.len() as int) =~= a.take(w.len() as int));
    }
}

proof fn lemma_join_prepend(a: Seq<char>, rest: Seq<Seq<char>>, sep: Seq<char>)
    requires
        rest.len() >= 1,
    ensures
        join(seq![a] + rest, sep) == a + sep + join(rest, sep),
    decreases rest.len(),
{
    let all = seq![a] + rest;
    if rest.len() == 1 {
        assert(all.drop_last() =~= seq![a]);
        assert(all.last() == rest[0]);
        assert(join(seq![a], sep) == a);
        assert(join(rest, sep) == rest[0]);
        assert(join(all, sep) == join(all.drop_last(), sep) + sep + all.last());
    } else {
        lemma_join_prepend(a, rest.drop_last(), sep);
        assert(all.drop_last() =~= seq![a] + rest.drop_last());
        assert(all.last() == rest.last());
        assert(join(all, sep) == join(all.drop_last(), sep) + sep + all.last());
        assert(join(rest, sep) == join(rest.drop_last(), sep) + sep + rest.last());
        assert(a + sep + join(rest.drop_last(), sep) + sep + rest.last() =~= a + sep + (join(rest.drop_last(), sep)
            + sep + rest.last()));
    }
}

proof fn lemma_split_str_nonempty(s: Seq<char>, p: Seq<char>)
    ensures
        split_str(s, p).len() >= 1,
    decreases s.len(),
{
    if p.len() > 0 {
        match find(s, p) {
            Some(i) => if 0 <= i && i + p.len() <= s.len() {
                lemma_split_str_nonempty(s.skip(i + p.len()), p);
            },
            None => {},
        }
    }
}

/// Replacing a character: a text without it is unchanged, and each
/// occurrence becomes `to` while the text around it is kept.
pub proof fn lemma_replace_char(a: Seq<char>, c: char, b: Seq<char>, to: Seq<char>)
    requires
        forall|i: int| 0 <= i < a.len() ==> a[i] != c,
    ensures
        replace(a, seq![c], to) == a,
        replace(a + seq![c] + b, seq![c], to) == a + to + replace(b, seq![c], to),
{
    let p = seq![c];
    lemma_find(a, p);
    assert forall|j: int| !match_at(a, p, j) by {
        if match_at(a, p, j) {
            assert(a.subrange(j, j + 1)[0] == a[j]);
        }
    }
    assert(find(a, p) is None);
    assert(split_str(a, p) == seq![a]);
    lemma_split_str_concat(a, b, p);
    lemma_split_str_nonempty(b, p);
    lemma_join_prepend(a, split_str(b, p), to);
    assert(seq![a] + split_str(b, p) == split_str(a + p + b, p));
}

} // verus!
