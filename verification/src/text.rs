use vstd::prelude::*;

verus! {

/// Appends one character to a string.
/// Calls `String::push`, which the standard library documents as appending
/// the given `char` to the end of the string.
#[verifier::external_body]
pub(crate) fn push_char(s: &mut String, c: char)
    ensures
        final(s)@ == old(s)@.push(c),
{
    s.push(c);
}

/// The characters of `s`, in order.
pub fn chars_of(s: &str) -> (res: Vec<char>)
    ensures
        res@ == s@,
{
    broadcast use vstd::string::group_string_axioms;
    let mut res: Vec<char> = Vec::new();
    for c in it: s.chars()
        invariant
            res@ == it.seq().take(it.index()),
            it.seq() == s@,
    {
        res.push(c);
    }
    res
}

/// A string holding exactly the characters of `v`.
pub fn string_of(v: &[char]) -> (res: String)
    ensures
        res@ == v@,
{
    let mut res = String::new();
    let mut i: usize = 0;
    while i < v.len()
        invariant
            i <= v.len(),
            res@ == v@.take(i as int),
        decreases v.len() - i,
    {
        push_char(&mut res, v[i]);
        assert(v@.take(i as int).push(v@[i as int]) =~= v@.take(i + 1));
        i = i + 1;
    }
    assert(v@.take(v.len() as int) =~= v@);
    res
}


/// `p` occurs in `s` starting at index `i`.
pub open spec fn occurs_at(s: Seq<char>, p: Seq<char>, i: int) -> bool {
    0 <= i && i + p.len() <= s.len() && s.subrange(i, i + p.len()) == p
}

/// `p` occurs somewhere in `s` (the empty pattern occurs everywhere).
pub open spec fn contains(s: Seq<char>, p: Seq<char>) -> bool {
    exists|i: int| occurs_at(s, p, i)
}

/// The first index at or after `k` at which `p` occurs in `s`.
pub open spec fn find_from(s: Seq<char>, p: Seq<char>, k: int) -> Option<int>
    decreases s.len() + 1 - k,
{
    if k < 0 || k + p.len() > s.len() {
        None
    } else if occurs_at(s, p, k) {
        Some(k)
    } else {
        find_from(s, p, k + 1)
    }
}

/// The first index at which `p` occurs in `s`.
pub open spec fn find(s: Seq<char>, p: Seq<char>) -> Option<int> {
    find_from(s, p, 0)
}

/// What `find_from` returns is the first occurrence at or after `k`.
pub proof fn lemma_find_from(s: Seq<char>, p: Seq<char>, k: int)
    requires
        0 <= k,
    ensures
        match find_from(s, p, k) {
            Some(i) => k <= i && occurs_at(s, p, i) && forall|j: int| k <= j < i ==> !occurs_at(s, p, j),
            None => forall|j: int| k <= j ==> !occurs_at(s, p, j),
        },
    decreases s.len() + 1 - k,
{
    if k + p.len() > s.len() {
    } else if occurs_at(s, p, k) {
    } else {
        lemma_find_from(s, p, k + 1);
    }
}

/// `find` is `Some` exactly when the pattern occurs.
pub proof fn lemma_find_contains(s: Seq<char>, p: Seq<char>)
    ensures
        find(s, p) is Some <==> contains(s, p),
        match find(s, p) {
            Some(i) => occurs_at(s, p, i) && forall|j: int| 0 <= j < i ==> !occurs_at(s, p, j),
            None => true,
        },
{
    lemma_find_from(s, p, 0);
    if find(s, p) is Some {
        let i = find(s, p)->0;
        assert(occurs_at(s, p, i));
    }
}

/// Whether `p` occurs in `s` at index `i`.
pub fn matches_at(s: &[char], p: &[char], i: usize) -> (res: bool)
    ensures
        res == occurs_at(s@, p@, i as int),
{
    if i > s.len() || p.len() > s.len() - i {
        return false;
    }
    let mut k: usize = 0;
    while k < p.len()
        invariant
            i + p.len() <= s.len(),
            k <= p.len(),
            forall|j: int| 0 <= j < k ==> s@[i + j] == p@[j],
        decreases p.len() - k,
    {
        if s[i + k] != p[k] {
            assert(s@.subrange(i as int, i + p.len())[k as int] != p@[k as int]);
            return false;
        }
        k = k + 1;
    }
    assert(s@.subrange(i as int, i + p.len()) =~= p@);
    true
}

/// The first index at or after `start` where `p` occurs in `s`.
pub fn find_chars_from(s: &[char], p: &[char], start: usize) -> (res: Option<usize>)
    ensures
        match res {
            Some(i) => find_from(s@, p@, start as int) == Some(i as int),
            None => find_from(s@, p@, start as int) is None,
        },
{
    let mut k = start;
    loop
        invariant
            start <= k,
            find_from(s@, p@, start as int) == find_from(s@, p@, k as int),
        decreases s.len() + 1 - k,
    {
        if k > s.len() || p.len() > s.len() - k {
            return None;
        }
        if matches_at(s, p, k) {
            return Some(k);
        }
        if p.len() == 0 {
            assert(s@.subrange(k as int, k as int) =~= p@);
        }
        k = k + 1;
    }
}

/// The first index where `p` occurs in `s`.
pub fn find_chars(s: &[char], p: &[char]) -> (res: Option<usize>)
    ensures
        match res {
            Some(i) => find(s@, p@) == Some(i as int),
            None => find(s@, p@) is None,
        },
{
    find_chars_from(s, p, 0)
}

/// Whether `p` occurs in `s`.
pub fn contains_chars(s: &[char], p: &[char]) -> (res: bool)
    ensures
        res == contains(s@, p@),
{
    proof {
        lemma_find_contains(s@, p@);
    }
    find_chars(s, p).is_some()
}

/// Whether the string slice `p` occurs in `s`.
pub fn contains_str(s: &[char], p: &str) -> (res: bool)
    ensures
        res == contains(s@, p@),
{
    let pv = chars_of(p);
    contains_chars(s, pv.as_slice())
}

/// `s` with every occurrence of `p` replaced by `r`, scanning left to right
/// without overlap; an empty `p` matches before every character and at the end.
pub open spec fn replace_all(s: Seq<char>, p: Seq<char>, r: Seq<char>) -> Seq<char>
    decreases s.len(),
{
    if p.len() == 0 {
        if s.len() == 0 {
            r
        } else {
            r + seq![s[0]] + replace_all(s.skip(1), p, r)
        }
    } else if s.len() < p.len() {
        s
    } else if s.take(p.len() as int) == p {
        r + replace_all(s.skip(p.len() as int), p, r)
    } else {
        seq![s[0]] + replace_all(s.skip(1), p, r)
    }
}

/// Where the text does not start with the pattern, its first character is kept.
pub proof fn lemma_replace_keeps_first(s: Seq<char>, p: Seq<char>, r: Seq<char>)
    requires
        p.len() > 0,
        s.len() > 0,
        !(s.len() >= p.len() && s.take(p.len() as int) == p),
    ensures
        replace_all(s, p, r) == seq![s[0]] + replace_all(s.skip(1), p, r),
{
    if s.len() < p.len() {
        assert(replace_all(s.skip(1), p, r) == s.skip(1));
        assert(seq![s[0]] + s.skip(1) =~= s);
    }
}

/// A stretch without the pattern's first character passes through a
/// replacement unchanged.
pub proof fn lemma_replace_skips(a: Seq<char>, b: Seq<char>, p: Seq<char>, r: Seq<char>)
    requires
        p.len() > 0,
        !a.contains(p[0]),
    ensures
        replace_all(a + b, p, r) == a + replace_all(b, p, r),
    decreases a.len(),
{
    if a.len() == 0 {
        assert(a + b =~= b);
        assert(a + replace_all(b, p, r) =~= replace_all(b, p, r));
    } else {
        let t = a + b;
        assert(t[0] == a[0]);
        if t.len() >= p.len() && t.take(p.len() as int) == p {
            assert(t.take(p.len() as int)[0] == t[0]);
            assert(a.contains(p[0]));
        }
        lemma_replace_keeps_first(t, p, r);
        assert(t.skip(1) =~= a.skip(1) + b);
        assert forall|c: char| a.skip(1).contains(c) implies a.contains(c) by {
            let k = choose|k: int| 0 <= k < a.skip(1).len() && a.skip(1)[k] == c;
            assert(a[k + 1] == c);
        }
        lemma_replace_skips(a.skip(1), b, p, r);
        assert(seq![a[0]] + (a.skip(1) + replace_all(b, p, r)) =~= a + replace_all(b, p, r));
    }
}

/// A text without the pattern's first character is left as it is.
pub proof fn lemma_replace_absent(s: Seq<char>, p: Seq<char>, r: Seq<char>)
    requires
        p.len() > 0,
        !s.contains(p[0]),
    ensures
        replace_all(s, p, r) == s,
{
    lemma_replace_skips(s, Seq::<char>::empty(), p, r);
    assert(s + Seq::<char>::empty() =~= s);
}

/// Two texts without a character do not have it once joined.
pub proof fn lemma_join_lacks(a: Seq<char>, b: Seq<char>, c: char)
    requires
        !a.contains(c),
        !b.contains(c),
    ensures
        !(a + b).contains(c),
{
    if (a + b).contains(c) {
        let k = choose|k: int| 0 <= k < (a + b).len() && (a + b)[k] == c;
        if k < a.len() {
            assert(a[k] == c);
        } else {
            assert(b[k - a.len()] == c);
        }
    }
}

/// A text that starts with the pattern has it replaced first.
pub proof fn lemma_replace_head(p: Seq<char>, y: Seq<char>, r: Seq<char>)
    requires
        p.len() > 0,
    ensures
        replace_all(p + y, p, r) == r + replace_all(y, p, r),
{
    assert((p + y).take(p.len() as int) =~= p);
    assert((p + y).skip(p.len() as int) =~= y);
}

/// Appends the characters of `r` to `out`.
pub fn append_chars(out: &mut Vec<char>, r: &[char])
    ensures
        final(out)@ == old(out)@ + r@,
{
    let mut k: usize = 0;
    while k < r.len()
        invariant
            k <= r.len(),
            out@ == old(out)@ + r@.take(k as int),
        decreases r.len() - k,
    {
        out.push(r[k]);
        assert(r@.take(k as int).push(r@[k as int]) =~= r@.take(k + 1));
        k = k + 1;
    }
    assert(r@.take(r.len() as int) =~= r@);
}

/// A copy of `s`.
pub fn copy_chars(s: &Vec<char>) -> (res: Vec<char>)
    ensures
        res@ == s@,
{
    let mut out: Vec<char> = Vec::new();
    append_chars(&mut out, s.as_slice());
    assert(out@ =~= s@);
    out
}

/// Appends `s[lo..hi]` to `out`.
pub fn append_range(out: &mut Vec<char>, s: &[char], lo: usize, hi: usize)
    requires
        lo <= hi <= s.len(),
    ensures
        final(out)@ == old(out)@ + s@.subrange(lo as int, hi as int),
{
    let mut k: usize = lo;
    while k < hi
        invariant
            lo <= k <= hi <= s.len(),
            out@ == old(out)@ + s@.subrange(lo as int, k as int),
        decreases hi - k,
    {
        out.push(s[k]);
        assert(s@.subrange(lo as int, k as int).push(s@[k as int]) =~= s@.subrange(lo as int, k + 1));
        k = k + 1;
    }
}

/// Every occurrence of `p` in `s` replaced by `r`.
pub fn replace_chars(s: &[char], p: &[char], r: &[char]) -> (res: Vec<char>)
    ensures
        res@ == replace_all(s@, p@, r@),
{
    let mut out: Vec<char> = Vec::new();
    let mut i: usize = 0;
    assert(s@.skip(0) =~= s@);
    while i < s.len()
        invariant
            i <= s.len(),
            out@ + replace_all(s@.skip(i as int), p@, r@) == replace_all(s@, p@, r@),
        decreases s.len() - i,
    {
        let ghost rest = s@.skip(i as int);
        let ghost before = out@;
        if p.len() == 0 {
            append_chars(&mut out, r);
            out.push(s[i]);
            assert(rest.skip(1) =~= s@.skip(i + 1));
            assert(before + (r@ + seq![rest[0]] + replace_all(rest.skip(1), p@, r@)) =~= out@
                + replace_all(s@.skip(i + 1), p@, r@));
            i = i + 1;
        } else if p.len() > s.len() - i {
            append_range(&mut out, s, i, s.len());
            assert(s@.subrange(i as int, s.len() as int) =~= rest);
            return out;
        } else if matches_at(s, p, i) {
            append_chars(&mut out, r);
            assert(rest.take(p.len() as int) =~= s@.subrange(i as int, i + p.len()));
            assert(rest.skip(p.len() as int) =~= s@.skip(i + p.len()));
            assert(before + (r@ + replace_all(rest.skip(p.len() as int), p@, r@)) =~= out@
                + replace_all(s@.skip(i + p.len()), p@, r@));
            i = i + p.len();
        } else {
            out.push(s[i]);
            assert(rest.take(p.len() as int) =~= s@.subrange(i as int, i + p.len()));
            assert(rest.skip(1) =~= s@.skip(i + 1));
            assert(before + (seq![rest[0]] + replace_all(rest.skip(1), p@, r@)) =~= out@
                + replace_all(s@.skip(i + 1), p@, r@));
            i = i + 1;
        }
    }
    let ghost rest = s@.skip(i as int);
    assert(rest.len() == 0);
    if p.len() == 0 {
        append_chars(&mut out, r);
    }
    assert(out@ =~= replace_all(s@, p@, r@));
    out
}

/// Every occurrence of the string slice `p` in `s` replaced by `r`.
pub fn replace_str(s: &[char], p: &str, r: &str) -> (res: Vec<char>)
    ensures
        res@ == replace_all(s@, p@, r@),
{
    let pv = chars_of(p);
    let rv = chars_of(r);
    replace_chars(s, pv.as_slice(), rv.as_slice())
}

/// Whether `c` has the Unicode `White_Space` property, as `char::is_whitespace` reports it.
pub uninterp spec fn white_space(c: char) -> bool;

/// Calls `char::is_whitespace`. Its documentation defines the answer as the
/// Unicode `White_Space` property; the contract names that answer and states the
/// ASCII cases that the property lists (tab, line feed, vertical tab, form feed,
/// carriage return and space are white space; ASCII letters and digits are not).
#[verifier::external_body]
pub(crate) fn is_whitespace(c: char) -> (res: bool)
    ensures
        res == white_space(c),
        (c == ' ' || c == '\t' || c == '\n' || c == '\r' || c == '\x0b' || c == '\x0c') ==> res,
        (('0' <= c && c <= '9') || ('a' <= c && c <= 'z') || ('A' <= c && c <= 'Z')) ==> !res,
{
    c.is_whitespace()
}

/// Whether `c` is in one of Unicode's number categories, as `char::is_numeric` reports it.
pub uninterp spec fn numeric_char(c: char) -> bool;

/// Calls `char::is_numeric`. Its documentation defines the answer as membership
/// in one of the Unicode general categories for numbers (`Nd`, `Nl`, `No`);
/// the contract names that answer and states that the ASCII digits are numbers.
#[verifier::external_body]
pub(crate) fn is_numeric(c: char) -> (res: bool)
    ensures
        res == numeric_char(c),
        ('0' <= c && c <= '9') ==> res,
{
    c.is_numeric()
}

/// `s` without its leading white space.
pub open spec fn trim_start(s: Seq<char>) -> Seq<char>
    decreases s.len(),
{
    if s.len() > 0 && white_space(s[0]) {
        trim_start(s.skip(1))
    } else {
        s
    }
}

/// `s` without its trailing white space.
pub open spec fn trim_end(s: Seq<char>) -> Seq<char>
    decreases s.len(),
{
    if s.len() > 0 && white_space(s.last()) {
        trim_end(s.drop_last())
    } else {
        s
    }
}

/// `s` without leading and trailing white space, as `str::trim` gives it.
pub open spec fn trim(s: Seq<char>) -> Seq<char> {
    trim_end(trim_start(s))
}

/// Trimming at the start drops a prefix, and leaves no white space in front.
pub proof fn lemma_trim_start(s: Seq<char>)
    ensures
        exists|a: int| 0 <= a <= s.len() && trim_start(s) == s.skip(a),
        trim_start(s).len() > 0 ==> !white_space(trim_start(s)[0]),
    decreases s.len(),
{
    if s.len() > 0 && white_space(s[0]) {
        lemma_trim_start(s.skip(1));
        let a = choose|a: int| 0 <= a <= s.skip(1).len() && trim_start(s.skip(1)) == s.skip(1).skip(a);
        assert(s.skip(1).skip(a) =~= s.skip(a + 1));
    } else {
        assert(s.skip(0) =~= s);
    }
}

/// Trimming at the end drops a suffix, and leaves no white space at the back.
pub proof fn lemma_trim_end(s: Seq<char>)
    ensures
        exists|b: int| 0 <= b <= s.len() && trim_end(s) == s.take(b),
        trim_end(s).len() > 0 ==> !white_space(trim_end(s).last()),
    decreases s.len(),
{
    if s.len() > 0 && white_space(s.last()) {
        lemma_trim_end(s.drop_last());
        let b = choose|b: int| 0 <= b <= s.drop_last().len() && trim_end(s.drop_last()) == s.drop_last().take(b);
        assert(s.drop_last().take(b) =~= s.take(b));
    } else {
        assert(s.take(s.len() as int) =~= s);
    }
}

/// A trimmed text is a piece of the text, with no white space at either end.
pub proof fn lemma_trim(s: Seq<char>)
    ensures
        exists|a: int, b: int| 0 <= a <= b <= s.len() && trim(s) == s.subrange(a, b),
        trim(s).len() > 0 ==> !white_space(trim(s)[0]) && !white_space(trim(s).last()),
{
    lemma_trim_start(s);
    let a = choose|a: int| 0 <= a <= s.len() && trim_start(s) == s.skip(a);
    let t = trim_start(s);
    lemma_trim_end(t);
    let b = choose|b: int| 0 <= b <= t.len() && trim_end(t) == t.take(b);
    assert(t.take(b) =~= s.subrange(a, a + b));
    if trim(s).len() > 0 {
        assert(trim(s)[0] == t[0]);
    }
}

/// A pattern that does not occur in a text does not occur in a piece of it.
pub proof fn lemma_contains_subrange(s: Seq<char>, p: Seq<char>, a: int, b: int)
    requires
        0 <= a <= b <= s.len(),
        contains(s.subrange(a, b), p),
    ensures
        contains(s, p),
{
    let t = s.subrange(a, b);
    let i = choose|i: int| occurs_at(t, p, i);
    assert(t.subrange(i, i + p.len()) =~= s.subrange(a + i, a + i + p.len()));
    assert(occurs_at(s, p, a + i));
}

/// A text occurs in any text that has it between two others.
pub proof fn lemma_contains_middle(a: Seq<char>, p: Seq<char>, b: Seq<char>)
    ensures
        contains(a + p + b, p),
        occurs_at(a + p + b, p, a.len() as int),
{
    assert((a + p + b).subrange(a.len() as int, (a.len() + p.len()) as int) =~= p);
    assert(occurs_at(a + p + b, p, a.len() as int));
}

/// `s` with leading and trailing white space removed.
pub fn trim_chars(s: &[char]) -> (res: Vec<char>)
    ensures
        res@ == trim(s@),
{
    let mut lo: usize = 0;
    assert(s@.subrange(0, s.len() as int) =~= s@);
    while lo < s.len() && is_whitespace(s[lo])
        invariant
            lo <= s.len(),
            trim_start(s@) == trim_start(s@.subrange(lo as int, s.len() as int)),
        decreases s.len() - lo,
    {
        assert(s@.subrange(lo as int, s.len() as int).skip(1) =~= s@.subrange(lo + 1, s.len() as int));
        lo = lo + 1;
    }
    let mut hi: usize = s.len();
    while hi > lo && is_whitespace(s[hi - 1])
        invariant
            lo <= hi <= s.len(),
            trim_start(s@) == s@.subrange(lo as int, s.len() as int),
            trim(s@) == trim_end(s@.subrange(lo as int, hi as int)),
        decreases hi,
    {
        assert(s@.subrange(lo as int, hi as int).drop_last() =~= s@.subrange(lo as int, hi - 1));
        hi = hi - 1;
    }
    let mut out: Vec<char> = Vec::new();
    append_range(&mut out, s, lo, hi);
    assert(out@ =~= s@.subrange(lo as int, hi as int));
    out
}

/// The character sequences held by a vector of character vectors.
pub open spec fn views(v: Seq<Vec<char>>) -> Seq<Seq<char>> {
    v.map_values(|x: Vec<char>| x@)
}

/// The character sequences held by a vector of vectors of character vectors.
pub open spec fn views2(v: Seq<Vec<Vec<char>>>) -> Seq<Seq<Seq<char>>> {
    v.map_values(|x: Vec<Vec<char>>| views(x@))
}

/// All the pieces, one after the other.
pub open spec fn concat(pieces: Seq<Seq<char>>) -> Seq<char>
    decreases pieces.len(),
{
    if pieces.len() == 0 {
        seq![]
    } else {
        concat(pieces.drop_last()) + pieces.last()
    }
}

/// All the pieces, one after the other.
pub fn concat_chars(pieces: &Vec<Vec<char>>) -> (res: Vec<char>)
    ensures
        res@ == concat(views(pieces@)),
{
    let mut out: Vec<char> = Vec::new();
    let mut i: usize = 0;
    while i < pieces.len()
        invariant
            i <= pieces.len(),
            out@ == concat(views(pieces@).take(i as int)),
        decreases pieces.len() - i,
    {
        append_chars(&mut out, pieces[i].as_slice());
        assert(views(pieces@).take(i + 1).drop_last() =~= views(pieces@).take(i as int));
        i = i + 1;
    }
    assert(views(pieces@).take(pieces.len() as int) =~= views(pieces@));
    out
}

/// `line` without one trailing carriage return.
pub open spec fn strip_cr(line: Seq<char>) -> Seq<char> {
    if line.len() > 0 && line.last() == '\r' {
        line.drop_last()
    } else {
        line
    }
}

/// The lines of `cur + s`, where `cur` is the part of the current line read so far.
pub open spec fn lines_from(s: Seq<char>, cur: Seq<char>) -> Seq<Seq<char>>
    decreases s.len(),
{
    if s.len() == 0 {
        if cur.len() == 0 {
            seq![]
        } else {
            seq![cur]
        }
    } else if s[0] == '\n' {
        seq![strip_cr(cur)] + lines_from(s.skip(1), seq![])
    } else {
        lines_from(s.skip(1), cur.push(s[0]))
    }
}

/// The lines of `s`, as `str::lines` gives them: split at `\n`, a `\r` just
/// before the `\n` dropped, and no empty line after a final `\n`.
pub open spec fn lines(s: Seq<char>) -> Seq<Seq<char>> {
    lines_from(s, seq![])
}

/// The lines of `s`.
pub fn lines_of(s: &[char]) -> (res: Vec<Vec<char>>)
    ensures
        views(res@) == lines(s@),
{
    let mut out: Vec<Vec<char>> = Vec::new();
    let mut cur: Vec<char> = Vec::new();
    let mut i: usize = 0;
    assert(s@.skip(0) =~= s@);
    assert(views(out@) =~= Seq::<Seq<char>>::empty());
    while i < s.len()
        invariant
            i <= s.len(),
            views(out@) + lines_from(s@.skip(i as int), cur@) == lines(s@),
        decreases s.len() - i,
    {
        let ghost rest = s@.skip(i as int);
        let ghost before = views(out@);
        let ghost old_cur = cur@;
        assert(rest.skip(1) =~= s@.skip(i + 1));
        if s[i] == '\n' {
            let mut line = cur;
            if line.len() > 0 && line[line.len() - 1] == '\r' {
                line.pop();
            }
            assert(line@ =~= strip_cr(old_cur));
            out.push(line);
            cur = Vec::new();
            assert(views(out@) =~= before.push(strip_cr(old_cur)));
            assert(before + lines_from(rest, old_cur) =~= views(out@) + lines_from(
                s@.skip(i + 1),
                cur@,
            ));
        } else {
            cur.push(s[i]);
        }
        i = i + 1;
    }
    assert(s@.skip(i as int) =~= Seq::<char>::empty());
    if cur.len() > 0 {
        let ghost before = views(out@);
        let ghost last = cur@;
        out.push(cur);
        assert(views(out@) =~= before + seq![last]);
    } else {
        assert(views(out@) + lines_from(s@.skip(i as int), cur@) =~= views(out@));
    }
    out
}

/// The pieces of `cur + s` between occurrences of `sep`, where `cur` is the
/// piece read so far.
pub open spec fn split_from(s: Seq<char>, sep: char, cur: Seq<char>) -> Seq<Seq<char>>
    decreases s.len(),
{
    if s.len() == 0 {
        seq![cur]
    } else if s[0] == sep {
        seq![cur] + split_from(s.skip(1), sep, seq![])
    } else {
        split_from(s.skip(1), sep, cur.push(s[0]))
    }
}

/// The pieces of `s` between occurrences of `sep`, as `str::split` with a
/// `char` pattern gives them: one more piece than there are separators.
pub open spec fn split(s: Seq<char>, sep: char) -> Seq<Seq<char>> {
    split_from(s, sep, seq![])
}

/// The pieces of `s` between occurrences of `sep`.
pub fn split_chars(s: &[char], sep: char) -> (res: Vec<Vec<char>>)
    ensures
        views(res@) == split(s@, sep),
{
    let mut out: Vec<Vec<char>> = Vec::new();
    let mut cur: Vec<char> = Vec::new();
    let mut i: usize = 0;
    assert(s@.skip(0) =~= s@);
    assert(views(out@) =~= Seq::<Seq<char>>::empty());
    while i < s.len()
        invariant
            i <= s.len(),
            views(out@) + split_from(s@.skip(i as int), sep, cur@) == split(s@, sep),
        decreases s.len() - i,
    {
        let ghost rest = s@.skip(i as int);
        let ghost before = views(out@);
        let ghost old_cur = cur@;
        assert(rest.skip(1) =~= s@.skip(i + 1));
        if s[i] == sep {
            out.push(cur);
            cur = Vec::new();
            assert(views(out@) =~= before.push(old_cur));
            assert(before + split_from(rest, sep, old_cur) =~= views(out@) + split_from(
                s@.skip(i + 1),
                sep,
                cur@,
            ));
        } else {
            cur.push(s[i]);
        }
        i = i + 1;
    }
    assert(s@.skip(i as int) =~= Seq::<char>::empty());
    let ghost before = views(out@);
    let ghost last = cur@;
    out.push(cur);
    assert(views(out@) =~= before + seq![last]);
    out
}

/// `cur` as a one-word list when it is not empty.
pub open spec fn word_if_any(cur: Seq<char>) -> Seq<Seq<char>> {
    if cur.len() == 0 {
        seq![]
    } else {
        seq![cur]
    }
}

/// The words of `cur + s`, where `cur` is the word read so far.
pub open spec fn words_from(s: Seq<char>, cur: Seq<char>) -> Seq<Seq<char>>
    decreases s.len(),
{
    if s.len() == 0 {
        word_if_any(cur)
    } else if white_space(s[0]) {
        word_if_any(cur) + words_from(s.skip(1), seq![])
    } else {
        words_from(s.skip(1), cur.push(s[0]))
    }
}

/// The non-empty runs of non-white-space characters of `s`, as
/// `str::split_whitespace` gives them.
pub open spec fn words(s: Seq<char>) -> Seq<Seq<char>> {
    words_from(s, seq![])
}

/// The words of `s`.
pub fn words_of(s: &[char]) -> (res: Vec<Vec<char>>)
    ensures
        views(res@) == words(s@),
{
    let mut out: Vec<Vec<char>> = Vec::new();
    let mut cur: Vec<char> = Vec::new();
    let mut i: usize = 0;
    assert(s@.skip(0) =~= s@);
    assert(views(out@) =~= Seq::<Seq<char>>::empty());
    while i < s.len()
        invariant
            i <= s.len(),
            views(out@) + words_from(s@.skip(i as int), cur@) == words(s@),
        decreases s.len() - i,
    {
        let ghost rest = s@.skip(i as int);
        let ghost before = views(out@);
        let ghost old_cur = cur@;
        assert(rest.skip(1) =~= s@.skip(i + 1));
        assert(rest[0] == s@[i as int]);
        if is_whitespace(s[i]) {
            if cur.len() > 0 {
                out.push(cur);
                cur = Vec::new();
                assert(views(out@) =~= before + word_if_any(old_cur));
            } else {
                assert(views(out@) =~= before + word_if_any(old_cur));
            }
            assert(cur@ =~= Seq::<char>::empty());
            assert(words_from(rest, old_cur) == word_if_any(old_cur) + words_from(rest.skip(1), seq![]));
            assert(before + words_from(rest, old_cur) =~= views(out@) + words_from(
                s@.skip(i + 1),
                cur@,
            ));
        } else {
            cur.push(s[i]);
        }
        i = i + 1;
    }
    assert(s@.skip(i as int) =~= Seq::<char>::empty());
    if cur.len() > 0 {
        let ghost before = views(out@);
        let ghost last = cur@;
        out.push(cur);
        assert(views(out@) =~= before + seq![last]);
    } else {
        assert(views(out@) + words_from(s@.skip(i as int), cur@) =~= views(out@));
    }
    out
}

/// The pieces joined with `sep` between each two of them, as `join` on a
/// slice of strings gives them.
pub open spec fn join(pieces: Seq<Seq<char>>, sep: Seq<char>) -> Seq<char>
    decreases pieces.len(),
{
    if pieces.len() == 0 {
        seq![]
    } else if pieces.len() == 1 {
        pieces[0]
    } else {
        join(pieces.drop_last(), sep) + sep + pieces.last()
    }
}

/// The pieces joined with `sep`.
pub fn join_chars(pieces: &Vec<Vec<char>>, sep: &[char]) -> (res: Vec<char>)
    ensures
        res@ == join(views(pieces@), sep@),
{
    let mut out: Vec<char> = Vec::new();
    let mut i: usize = 0;
    while i < pieces.len()
        invariant
            i <= pieces.len(),
            out@ == join(views(pieces@).take(i as int), sep@),
        decreases pieces.len() - i,
    {
        if i > 0 {
            append_chars(&mut out, sep);
        }
        append_chars(&mut out, pieces[i].as_slice());
        assert(views(pieces@).take(i + 1).drop_last() =~= views(pieces@).take(i as int));
        i = i + 1;
    }
    assert(views(pieces@).take(pieces.len() as int) =~= views(pieces@));
    out
}

/// `s` starts with `p`.
pub open spec fn starts_with(s: Seq<char>, p: Seq<char>) -> bool {
    p.len() <= s.len() && s.take(p.len() as int) == p
}

/// `s` ends with `p`.
pub open spec fn ends_with(s: Seq<char>, p: Seq<char>) -> bool {
    p.len() <= s.len() && s.skip(s.len() - p.len()) == p
}

/// Whether `s` starts with the string slice `p`.
pub fn starts_with_str(s: &[char], p: &str) -> (res: bool)
    ensures
        res == starts_with(s@, p@),
{
    let pv = chars_of(p);
    let r = matches_at(s, pv.as_slice(), 0);
    assert(s@.take(pv@.len() as int) =~= s@.subrange(0, pv@.len() as int));
    r
}

/// Whether `s` ends with the string slice `p`.
pub fn ends_with_str(s: &[char], p: &str) -> (res: bool)
    ensures
        res == ends_with(s@, p@),
{
    let pv = chars_of(p);
    if pv.len() > s.len() {
        return false;
    }
    let r = matches_at(s, pv.as_slice(), s.len() - pv.len());
    assert(s@.skip(s.len() - pv@.len()) =~= s@.subrange(s.len() - pv@.len(), s.len() as int));
    r
}

/// The number of bytes of `c` in UTF-8.
pub open spec fn utf8_width(c: char) -> nat {
    if (c as u32) < 0x80 {
        1
    } else if (c as u32) < 0x800 {
        2
    } else if (c as u32) < 0x10000 {
        3
    } else {
        4
    }
}

/// The number of bytes of `s` in UTF-8, which is what `str::len` reports.
pub open spec fn byte_len(s: Seq<char>) -> nat
    decreases s.len(),
{
    if s.len() == 0 {
        0
    } else {
        byte_len(s.drop_last()) + utf8_width(s.last())
    }
}

/// The number of bytes of `c` in UTF-8.
pub fn char_width(c: char) -> (res: usize)
    ensures
        res == utf8_width(c),
        1 <= res <= 4,
{
    let v = c as u32;
    if v < 0x80 {
        1
    } else if v < 0x800 {
        2
    } else if v < 0x10000 {
        3
    } else {
        4
    }
}

/// Byte length grows with every added character.
pub proof fn lemma_byte_len_take(s: Seq<char>, k: int)
    requires
        0 <= k < s.len(),
    ensures
        byte_len(s.take(k + 1)) == byte_len(s.take(k)) + utf8_width(s[k]),
        byte_len(s.take(k)) <= byte_len(s.take(k + 1)),
{
    assert(s.take(k + 1).drop_last() =~= s.take(k));
}

/// Byte length never shrinks along prefixes.
pub proof fn lemma_byte_len_prefix_mono(s: Seq<char>, a: int, b: int)
    requires
        0 <= a <= b <= s.len(),
    ensures
        byte_len(s.take(a)) <= byte_len(s.take(b)),
        a < b ==> byte_len(s.take(a)) < byte_len(s.take(b)),
    decreases b - a,
{
    if a < b {
        lemma_byte_len_take(s, b - 1);
        lemma_byte_len_prefix_mono(s, a, b - 1);
    }
}

/// The byte length of `s`, or `cap` where that is smaller.
pub fn byte_len_capped(s: &[char], cap: usize) -> (res: usize)
    requires
        cap <= usize::MAX - 4,
    ensures
        res == if byte_len(s@) < cap { byte_len(s@) } else { cap as nat },
{
    if cap == 0 {
        return 0;
    }
    let mut total: usize = 0;
    let mut k: usize = 0;
    assert(s@.take(0) =~= Seq::<char>::empty());
    while k < s.len()
        invariant
            k <= s.len(),
            cap <= usize::MAX - 4,
            total == byte_len(s@.take(k as int)),
            total < cap,
        decreases s.len() - k,
    {
        proof {
            lemma_byte_len_take(s@, k as int);
        }
        total = total + char_width(s[k]);
        k = k + 1;
        if total >= cap {
            proof {
                lemma_byte_len_prefix_mono(s@, k as int, s.len() as int);
                assert(s@.take(s.len() as int) =~= s@);
            }
            return cap;
        }
    }
    assert(s@.take(s.len() as int) =~= s@);
    total
}

/// The byte length of the first `k` characters of `s`, or `cap` where that is smaller.
pub fn prefix_byte_len_capped(s: &[char], k: usize, cap: usize) -> (res: usize)
    requires
        k <= s.len(),
        cap <= usize::MAX - 4,
    ensures
        res == if byte_len(s@.take(k as int)) < cap { byte_len(s@.take(k as int)) } else { cap as nat },
{
    let mut head: Vec<char> = Vec::new();
    append_range(&mut head, s, 0, k);
    assert(head@ =~= s@.take(k as int));
    byte_len_capped(head.as_slice(), cap)
}

/// Whether `s` takes more than `n` bytes in UTF-8.
pub fn byte_len_exceeds(s: &[char], n: usize) -> (res: bool)
    requires
        n < usize::MAX - 4,
    ensures
        res == (byte_len(s@) > n),
{
    byte_len_capped(s, n + 1) > n
}

/// The index of the character that starts at byte `b` of `s`, if a character
/// starts there (or `b` is the byte length of `s`).
pub fn char_index_at_byte(s: &[char], b: usize) -> (res: Option<usize>)
    ensures
        match res {
            Some(k) => k <= s.len() && byte_len(s@.take(k as int)) == b,
            None => forall|k: int| 0 <= k <= s.len() ==> byte_len(s@.take(k)) != b,
        },
{
    let mut total: usize = 0;
    let mut k: usize = 0;
    assert(s@.take(0) =~= Seq::<char>::empty());
    while k < s.len() && total < b
        invariant
            k <= s.len(),
            total == byte_len(s@.take(k as int)),
            total <= b,
        decreases s.len() - k,
    {
        proof {
            lemma_byte_len_take(s@, k as int);
        }
        let w = char_width(s[k]);
        if w > b - total {
            proof {
                assert forall|j: int| 0 <= j <= s.len() implies byte_len(s@.take(j)) != b by {
                    if j <= k {
                        lemma_byte_len_prefix_mono(s@, j, k as int);
                    } else {
                        lemma_byte_len_prefix_mono(s@, k + 1, j);
                    }
                }
            }
            return None;
        }
        total = total + w;
        k = k + 1;
    }
    if total == b {
        Some(k)
    } else {
        proof {
            assert forall|j: int| 0 <= j <= s.len() implies byte_len(s@.take(j)) != b by {
                lemma_byte_len_prefix_mono(s@, j, k as int);
            }
        }
        None
    }
}

/// Appends the characters of `v` to the string `out`.
pub fn push_chars(out: &mut String, v: &[char])
    ensures
        final(out)@ == old(out)@ + v@,
{
    let mut i: usize = 0;
    while i < v.len()
        invariant
            i <= v.len(),
            out@ == old(out)@ + v@.take(i as int),
        decreases v.len() - i,
    {
        push_char(out, v[i]);
        assert(v@.take(i as int).push(v@[i as int]) =~= v@.take(i + 1));
        i = i + 1;
    }
    assert(v@.take(v.len() as int) =~= v@);
}

/// The ASCII digit for `d`.
pub open spec fn digit_char(d: nat) -> char {
    if d == 0 { '0' } else if d == 1 { '1' } else if d == 2 { '2' } else if d == 3 { '3' }
    else if d == 4 { '4' } else if d == 5 { '5' } else if d == 6 { '6' } else if d == 7 { '7' }
    else if d == 8 { '8' } else { '9' }
}

/// The decimal digits of `n`, most significant first, as `{}` formats an integer.
pub open spec fn decimal(n: nat) -> Seq<char>
    decreases n,
{
    if n < 10 {
        seq![digit_char(n)]
    } else {
        decimal(n / 10).push(digit_char(n % 10))
    }
}

/// The ASCII digit for `d`.
pub fn digit(d: usize) -> (res: char)
    requires
        d < 10,
    ensures
        res == digit_char(d as nat),
{
    if d == 0 { '0' } else if d == 1 { '1' } else if d == 2 { '2' } else if d == 3 { '3' }
    else if d == 4 { '4' } else if d == 5 { '5' } else if d == 6 { '6' } else if d == 7 { '7' }
    else if d == 8 { '8' } else { '9' }
}

/// Appends the decimal digits of `n` to `out`.
pub fn push_decimal(out: &mut String, n: usize)
    ensures
        final(out)@ == old(out)@ + decimal(n as nat),
    decreases n,
{
    if n >= 10 {
        push_decimal(out, n / 10);
    }
    push_char(out, digit(n % 10));
}

/// The value of the digit character `c`.
pub open spec fn digit_value(c: char) -> nat {
    ((c as u32) - ('0' as u32)) as nat
}

/// `c` is an ASCII digit.
pub open spec fn is_digit(c: char) -> bool {
    '0' <= c && c <= '9'
}

/// The number that the ASCII digits of `s` spell in decimal.
pub open spec fn digits_value(s: Seq<char>) -> nat
    decreases s.len(),
{
    if s.len() == 0 {
        0
    } else {
        digits_value(s.drop_last()) * 10 + digit_value(s.last())
    }
}

/// The digits of an unsigned integer, with the optional `+` sign removed.
pub open spec fn unsigned_digits(s: Seq<char>) -> Seq<char> {
    if s.len() > 0 && s[0] == '+' {
        s.skip(1)
    } else {
        s
    }
}

/// What `str::parse::<usize>` gives for `s`: an optional `+` followed by one
/// or more ASCII digits whose value fits in `usize`; anything else, white
/// space included, is refused.
pub open spec fn parse_usize(s: Seq<char>) -> Option<nat> {
    let d = unsigned_digits(s);
    if d.len() > 0 && (forall|i: int| 0 <= i < d.len() ==> is_digit(#[trigger] d[i]))
        && digits_value(d) <= usize::MAX {
        Some(digits_value(d))
    } else {
        None
    }
}

/// Prefix values of digit strings never shrink.
proof fn lemma_digits_value_mono(d: Seq<char>, a: int, b: int)
    requires
        0 <= a <= b <= d.len(),
        forall|i: int| 0 <= i < d.len() ==> is_digit(#[trigger] d[i]),
    ensures
        digits_value(d.take(a)) <= digits_value(d.take(b)),
    decreases b - a,
{
    if a < b {
        lemma_digits_value_mono(d, a, b - 1);
        assert(d.take(b).drop_last() =~= d.take(b - 1));
        let v = digits_value(d.take(b - 1));
        assert(v * 10 >= v) by (nonlinear_arith)
            requires v >= 0;
    }
}

/// The unsigned integer that `s` spells, as `str::parse::<usize>` reads it.
pub fn parse_usize_chars(s: &[char]) -> (res: Option<usize>)
    ensures
        match res {
            Some(n) => parse_usize(s@) == Some(n as nat),
            None => parse_usize(s@) is None,
        },
{
    let start: usize = if s.len() > 0 && s[0] == '+' { 1 } else { 0 };
    let ghost d = unsigned_digits(s@);
    assert(d =~= s@.skip(start as int));
    if start >= s.len() {
        return None;
    }
    let mut value: usize = 0;
    let mut i: usize = start;
    assert(d.take(0) =~= Seq::<char>::empty());
    while i < s.len()
        invariant
            start <= i <= s.len(),
            d == s@.skip(start as int),
            d == unsigned_digits(s@),
            forall|j: int| 0 <= j < i - start ==> is_digit(#[trigger] d[j]),
            value == digits_value(d.take(i - start)),
        decreases s.len() - i,
    {
        let c = s[i];
        assert(d[i - start] == c);
        if !('0' <= c && c <= '9') {
            assert(!is_digit(d[i - start]));
            return None;
        }
        let dv = (c as u32 - '0' as u32) as usize;
        assert(d.take(i - start + 1).drop_last() =~= d.take(i - start));
        match value.checked_mul(10) {
            Some(m) => match m.checked_add(dv) {
                Some(v) => {
                    value = v;
                },
                None => {
                    proof {
                        if forall|j: int| 0 <= j < d.len() ==> is_digit(#[trigger] d[j]) {
                            lemma_digits_value_mono(d, i - start + 1, d.len() as int);
                            assert(d.take(d.len() as int) =~= d);
                        }
                    }
                    return None;
                },
            },
            None => {
                proof {
                    if forall|j: int| 0 <= j < d.len() ==> is_digit(#[trigger] d[j]) {
                        lemma_digits_value_mono(d, i - start + 1, d.len() as int);
                        assert(d.take(d.len() as int) =~= d);
                    }
                }
                return None;
            },
        }
        i = i + 1;
    }
    assert(d.take(i - start) =~= d);
    Some(value)
}

/// Whether two string slices hold the same characters.
pub fn equal_str(a: &str, b: &str) -> (res: bool)
    ensures
        res == (a@ == b@),
{
    let av = chars_of(a);
    let bv = chars_of(b);
    if av.len() != bv.len() {
        return false;
    }
    let r = matches_at(av.as_slice(), bv.as_slice(), 0);
    assert(av@.subrange(0, bv@.len() as int) =~= av@);
    r
}

/// Whether two character slices are equal.
pub fn equal_chars(a: &[char], b: &[char]) -> (res: bool)
    ensures
        res == (a@ == b@),
{
    if a.len() != b.len() {
        return false;
    }
    let r = matches_at(a, b, 0);
    assert(a@.subrange(0, b@.len() as int) =~= a@);
    r
}

/// The longest prefix of `s` that takes at most `n` bytes, where that prefix
/// ends exactly at byte `n` or is all of `s`: what slicing `s[..n]` (after
/// checking the length) gives; `None` where byte `n` falls inside a character.
pub open spec fn byte_prefix(s: Seq<char>, n: nat) -> Option<Seq<char>> {
    if byte_len(s) <= n {
        Some(s)
    } else if exists|k: int| 0 <= k <= s.len() && byte_len(s.take(k)) == n {
        Some(s.take(choose|k: int| 0 <= k <= s.len() && byte_len(s.take(k)) == n))
    } else {
        None
    }
}

/// Prefixes with the same byte length are the same prefix.
pub proof fn lemma_byte_prefix_unique(s: Seq<char>, a: int, b: int)
    requires
        0 <= a <= s.len(),
        0 <= b <= s.len(),
        byte_len(s.take(a)) == byte_len(s.take(b)),
    ensures
        a == b,
{
    if a < b {
        lemma_byte_len_prefix_mono(s, a, b);
    } else if b < a {
        lemma_byte_len_prefix_mono(s, b, a);
    }
}

/// The first `n` bytes of `s`, if `s` is longer and byte `n` starts a character;
/// all of `s` if it is not longer.
pub fn byte_prefix_chars(s: &[char], n: usize) -> (res: Option<Vec<char>>)
    requires
        n < usize::MAX - 4,
    ensures
        match res {
            Some(p) => byte_prefix(s@, n as nat) == Some(p@),
            None => byte_prefix(s@, n as nat) is None,
        },
{
    if !byte_len_exceeds(s, n) {
        let mut out: Vec<char> = Vec::new();
        append_chars(&mut out, s);
        return Some(out);
    }
    match char_index_at_byte(s, n) {
        Some(k) => {
            let mut out: Vec<char> = Vec::new();
            append_range(&mut out, s, 0, k);
            assert(out@ =~= s@.take(k as int));
            proof {
                let c = choose|c: int| 0 <= c <= s@.len() && byte_len(s@.take(c)) == n;
                lemma_byte_prefix_unique(s@, c, k as int);
            }
            Some(out)
        },
        None => None,
    }
}

/// The pieces of `cur + s` between characters of `seps`, where `cur` is the
/// piece read so far.
pub open spec fn split_any_from(s: Seq<char>, seps: Seq<char>, cur: Seq<char>) -> Seq<Seq<char>>
    decreases s.len(),
{
    if s.len() == 0 {
        seq![cur]
    } else if seps.contains(s[0]) {
        seq![cur] + split_any_from(s.skip(1), seps, seq![])
    } else {
        split_any_from(s.skip(1), seps, cur.push(s[0]))
    }
}

/// The pieces of `s` between characters of `seps`.
pub open spec fn split_any(s: Seq<char>, seps: Seq<char>) -> Seq<Seq<char>> {
    split_any_from(s, seps, seq![])
}

/// Whether `c` is one of `seps`.
pub fn char_in(seps: &[char], c: char) -> (res: bool)
    ensures
        res == seps@.contains(c),
{
    let mut i: usize = 0;
    while i < seps.len()
        invariant
            i <= seps.len(),
            forall|j: int| 0 <= j < i ==> seps@[j] != c,
        decreases seps.len() - i,
    {
        if seps[i] == c {
            assert(seps@[i as int] == c);
            return true;
        }
        i = i + 1;
    }
    false
}

/// The pieces of `s` between characters of `seps`.
pub fn split_any_chars(s: &[char], seps: &[char]) -> (res: Vec<Vec<char>>)
    ensures
        views(res@) == split_any(s@, seps@),
{
    let mut out: Vec<Vec<char>> = Vec::new();
    let mut cur: Vec<char> = Vec::new();
    let mut i: usize = 0;
    assert(s@.skip(0) =~= s@);
    assert(views(out@) =~= Seq::<Seq<char>>::empty());
    while i < s.len()
        invariant
            i <= s.len(),
            views(out@) + split_any_from(s@.skip(i as int), seps@, cur@) == split_any(s@, seps@),
        decreases s.len() - i,
    {
        let ghost rest = s@.skip(i as int);
        let ghost before = views(out@);
        let ghost old_cur = cur@;
        assert(rest.skip(1) =~= s@.skip(i + 1));
        assert(rest[0] == s@[i as int]);
        if char_in(seps, s[i]) {
            out.push(cur);
            cur = Vec::new();
            assert(views(out@) =~= before.push(old_cur));
            assert(before + split_any_from(rest, seps@, old_cur) =~= views(out@) + split_any_from(
                s@.skip(i + 1),
                seps@,
                cur@,
            ));
        } else {
            cur.push(s[i]);
        }
        i = i + 1;
    }
    assert(s@.skip(i as int) =~= Seq::<char>::empty());
    let ghost before = views(out@);
    let ghost last = cur@;
    out.push(cur);
    assert(views(out@) =~= before + seq![last]);
    out
}

/// The name of a dated output file: `stem_date.extension`.
pub fn dated_filename(stem: &str, date: &str, extension: &str) -> (res: String)
    ensures
        res@ == stem@ + "_"@ + date@ + "."@ + extension@,
{
    let mut s = String::from_str(stem);
    s.append("_");
    s.append(date);
    s.append(".");
    s.append(extension);
    s
}

/// Whether `s` contains any of `frags`.
pub open spec fn contains_any(s: Seq<char>, frags: Seq<Seq<char>>) -> bool
    decreases frags.len(),
{
    frags.len() > 0 && (contains_any(s, frags.drop_last()) || contains(s, frags.last()))
}

/// Whether `s` contains any of `frags`.
pub fn contains_any_of(s: &[char], frags: &Vec<Vec<char>>) -> (res: bool)
    ensures
        res == contains_any(s@, views(frags@)),
{
    let mut found = false;
    let mut i: usize = 0;
    while i < frags.len()
        invariant
            i <= frags.len(),
            found == contains_any(s@, views(frags@).take(i as int)),
        decreases frags.len() - i,
    {
        assert(views(frags@).take(i + 1).drop_last() =~= views(frags@).take(i as int));
        assert(views(frags@).take(i + 1).last() == frags@[i as int]@);
        if contains_chars(s, frags[i].as_slice()) {
            found = true;
        }
        i = i + 1;
    }
    assert(views(frags@).take(frags.len() as int) =~= views(frags@));
    found
}

} // verus!
