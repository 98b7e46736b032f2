//! Text primitives with their mathematical meaning.
use vstd::prelude::*;
use vstd::utf8::*;

verus! {

broadcast use {encode_utf8_valid_utf8, encode_utf8_decode_utf8};

/// The characters of `s`, one per element.
pub fn chars_of(s: &str) -> (r: Vec<char>)
    ensures
        r@ == s@,
{
    let mut v: Vec<char> = Vec::new();
    for c in it: s.chars()
        invariant
            v@ == it.seq().take(it.index() as int),
            it.seq() == s@,
    {
        v.push(c);
    }
    v
}

/// Whether two byte slices hold the same bytes.
pub fn bytes_eq(a: &[u8], b: &[u8]) -> (r: bool)
    ensures
        r == (a@ == b@),
{
    if a.len() != b.len() {
        return false;
    }
    let n = a.len();
    let mut i: usize = 0;
    while i < n
        invariant
            n == a@.len(),
            n == b@.len(),
            0 <= i <= n,
            forall|j: int| 0 <= j < i ==> a@[j] == b@[j],
        decreases n - i,
    {
        if a[i] != b[i] {
            return false;
        }
        i = i + 1;
    }
    assert(a@ =~= b@);
    true
}

/// Whether two strings hold the same characters.
pub fn str_eq(a: &str, b: &str) -> (r: bool)
    ensures
        r == (a@ == b@),
{
    let same = bytes_eq(a.as_bytes(), b.as_bytes());
    proof {
        if same {
            assert(decode_utf8(encode_utf8(a@)) == a@);
            assert(decode_utf8(encode_utf8(b@)) == b@);
        }
    }
    same
}



/// The decimal digit character for `d < 10`.
pub open spec fn digit_char(d: nat) -> char {
    if d == 0 { '0' }
    else if d == 1 { '1' }
    else if d == 2 { '2' }
    else if d == 3 { '3' }
    else if d == 4 { '4' }
    else if d == 5 { '5' }
    else if d == 6 { '6' }
    else if d == 7 { '7' }
    else if d == 8 { '8' }
    else { '9' }
}

/// The decimal numeral of `n`, as `Display` writes an unsigned integer.
pub open spec fn decimal(n: nat) -> Seq<char>
    decreases n,
{
    if n < 10 {
        seq![digit_char(n)]
    } else {
        decimal(n / 10).push(digit_char(n % 10))
    }
}

/// Calls `String::push`, which appends `c` to the end of `s`; the contract
/// restates that documented behaviour.
#[verifier::external_body]
fn push_char(s: &mut String, c: char)
    ensures
        final(s)@ == old(s)@.push(c),
{
    s.push(c);
}

/// The characters of `cs` as a `String`.
pub fn string_of(cs: &Vec<char>) -> (r: String)
    ensures
        r@ == cs@,
{
    let mut s = String::new();
    let mut i: usize = 0;
    while i < cs.len()
        invariant
            0 <= i <= cs@.len(),
            s@ == cs@.take(i as int),
        decreases cs@.len() - i,
    {
        push_char(&mut s, cs[i]);
        assert(cs@.take(i + 1) =~= cs@.take(i as int).push(cs@[i as int]));
        i = i + 1;
    }
    assert(cs@.take(i as int) =~= cs@);
    s
}

fn digit_of(d: usize) -> (c: char)
    requires
        d < 10,
    ensures
        c == digit_char(d as nat),
{
    if d == 0 { '0' }
    else if d == 1 { '1' }
    else if d == 2 { '2' }
    else if d == 3 { '3' }
    else if d == 4 { '4' }
    else if d == 5 { '5' }
    else if d == 6 { '6' }
    else if d == 7 { '7' }
    else if d == 8 { '8' }
    else { '9' }
}

/// The decimal numeral of `n`.
pub fn decimal_chars(n: usize) -> (r: Vec<char>)
    ensures
        r@ == decimal(n as nat),
    decreases n,
{
    if n < 10 {
        let mut v = Vec::new();
        v.push(digit_of(n));
        v
    } else {
        let mut v = decimal_chars(n / 10);
        v.push(digit_of(n % 10));
        v
    }
}

/// Appends all of `b` to `a`.
pub fn append_chars(a: &mut Vec<char>, b: &[char])
    ensures
        final(a)@ == old(a)@ + b@,
{
    let n = b.len();
    let mut i: usize = 0;
    while i < n
        invariant
            n == b@.len(),
            0 <= i <= n,
            a@ == old(a)@ + b@.take(i as int),
        decreases n - i,
    {
        a.push(b[i]);
        i = i + 1;
    }
    assert(b@.take(n as int) =~= b@);
}

/// Appends the characters of `s` to `a`.
pub fn append_str(a: &mut Vec<char>, s: &str)
    ensures
        final(a)@ == old(a)@ + s@,
{
    let cs = chars_of(s);
    append_chars(a, cs.as_slice());
}


// ---------------------------------------------------------------------------
// Searching and cutting sequences
// ---------------------------------------------------------------------------

/// `p` stands in `s` starting at index `i`.
pub open spec fn occurs_at<A>(s: Seq<A>, p: Seq<A>, i: int) -> bool {
    0 <= i && i + p.len() <= s.len() && s.subrange(i, i + p.len()) == p
}

/// The first index at or after `i` where `p` occurs in `s`.
pub open spec fn find_from<A>(s: Seq<A>, p: Seq<A>, i: int) -> Option<int>
    decreases s.len() + 1 - i,
{
    if i < 0 || i + p.len() > s.len() {
        None
    } else if occurs_at(s, p, i) {
        Some(i)
    } else {
        find_from(s, p, i + 1)
    }
}

/// The first index where `p` occurs in `s` (`str::find`).
pub open spec fn find<A>(s: Seq<A>, p: Seq<A>) -> Option<int> {
    find_from(s, p, 0)
}

pub open spec fn contains<A>(s: Seq<A>, p: Seq<A>) -> bool {
    find(s, p) is Some
}

pub open spec fn starts_with<A>(s: Seq<A>, p: Seq<A>) -> bool {
    occurs_at(s, p, 0)
}

pub open spec fn ends_with<A>(s: Seq<A>, p: Seq<A>) -> bool {
    p.len() <= s.len() && occurs_at(s, p, s.len() - p.len())
}

/// The first index at or after `i` whose element satisfies `pred`.
pub open spec fn first_index_from<A>(s: Seq<A>, pred: spec_fn(A) -> bool, i: int) -> Option<int>
    decreases s.len() - i,
{
    if i < 0 || i >= s.len() {
        None
    } else if pred(s[i]) {
        Some(i)
    } else {
        first_index_from(s, pred, i + 1)
    }
}

/// The last index before `end` whose element satisfies `pred`.
pub open spec fn last_index_before<A>(s: Seq<A>, pred: spec_fn(A) -> bool, end: int) -> Option<int>
    decreases end,
{
    if end <= 0 || end > s.len() {
        None
    } else if pred(s[end - 1]) {
        Some(end - 1)
    } else {
        last_index_before(s, pred, end - 1)
    }
}

/// What follows the last element of `s` that satisfies `pred`; all of `s` when
/// none does (the first piece that `rsplit` yields).
pub open spec fn after_last<A>(s: Seq<A>, pred: spec_fn(A) -> bool) -> Seq<A> {
    match last_index_before(s, pred, s.len() as int) {
        Some(i) => s.skip(i + 1),
        None => s,
    }
}

/// The pieces of `s` between the elements that satisfy `sep` (`str::split`).
pub open spec fn split_by<A>(s: Seq<A>, sep: spec_fn(A) -> bool) -> Seq<Seq<A>>
    decreases s.len(),
{
    match first_index_from(s, sep, 0) {
        Some(i) => {
            if 0 <= i < s.len() {
                seq![s.take(i)] + split_by(s.skip(i + 1), sep)
            } else {
                seq![s]
            }
        },
        None => seq![s],
    }
}

pub proof fn lemma_first_index_from<A>(s: Seq<A>, pred: spec_fn(A) -> bool, i: int)
    ensures
        first_index_from(s, pred, i) matches Some(j) ==> i <= j < s.len() && 0 <= j && pred(s[j])
            && forall|k: int| i <= k < j ==> !pred(#[trigger] s[k]),
        first_index_from(s, pred, i) is None ==> forall|k: int|
            0 <= i <= k < s.len() ==> !pred(#[trigger] s[k]),
    decreases s.len() - i,
{
    if 0 <= i < s.len() && !pred(s[i]) {
        lemma_first_index_from(s, pred, i + 1);
    }
}

/// A scan that found no match in `s[i..k]` and a match at `k` (or reached the
/// end) determines `first_index_from(s, pred, i)`.
pub proof fn lemma_first_index_scan<A>(s: Seq<A>, pred: spec_fn(A) -> bool, i: int, k: int)
    requires
        0 <= i <= k <= s.len(),
        forall|j: int| i <= j < k ==> !pred(#[trigger] s[j]),
    ensures
        k < s.len() && pred(s[k]) ==> first_index_from(s, pred, i) == Some(k),
        k == s.len() ==> first_index_from(s, pred, i) is None,
    decreases k - i,
{
    if i < k {
        lemma_first_index_scan(s, pred, i + 1, k);
    }
}

pub proof fn lemma_last_index_before<A>(s: Seq<A>, pred: spec_fn(A) -> bool, end: int)
    requires
        0 <= end <= s.len(),
    ensures
        last_index_before(s, pred, end) matches Some(j) ==> 0 <= j < end && pred(s[j])
            && forall|k: int| j < k < end ==> !pred(#[trigger] s[k]),
        last_index_before(s, pred, end) is None ==> forall|k: int|
            0 <= k < end ==> !pred(#[trigger] s[k]),
    decreases end,
{
    if 0 < end && !pred(s[end - 1]) {
        lemma_last_index_before(s, pred, end - 1);
    }
}

pub proof fn lemma_find_from<A>(s: Seq<A>, p: Seq<A>, i: int)
    requires
        0 <= i,
    ensures
        find_from(s, p, i) matches Some(j) ==> i <= j && occurs_at(s, p, j)
            && forall|k: int| i <= k < j ==> !occurs_at(s, p, k),
        find_from(s, p, i) is None ==> forall|k: int| i <= k ==> !occurs_at(s, p, k),
    decreases s.len() + 1 - i,
{
    if !(i < 0 || i + p.len() > s.len()) && !occurs_at(s, p, i) {
        lemma_find_from(s, p, i + 1);
    }
}

/// A scan that found no occurrence at `i..k` and one at `k` (or ran out of
/// room) determines `find_from(s, p, i)`.
pub proof fn lemma_find_scan<A>(s: Seq<A>, p: Seq<A>, i: int, k: int)
    requires
        0 <= i <= k,
        forall|j: int| i <= j < k ==> !occurs_at(s, p, j),
    ensures
        occurs_at(s, p, k) ==> find_from(s, p, i) == Some(k),
        k + p.len() > s.len() ==> find_from(s, p, i) is None,
    decreases k - i,
{
    if i < k {
        lemma_find_scan(s, p, i + 1, k);
    }
}


/// A scan back from `end` that met no match down to `k` determines
/// `last_index_before(s, pred, end)`.
pub proof fn lemma_last_index_scan<A>(s: Seq<A>, pred: spec_fn(A) -> bool, k: int, end: int)
    requires
        0 <= k <= end <= s.len(),
        forall|j: int| k <= j < end ==> !pred(#[trigger] s[j]),
    ensures
        k > 0 && pred(s[k - 1]) ==> last_index_before(s, pred, end) == Some(k - 1),
        k == 0 ==> last_index_before(s, pred, end) is None,
    decreases end - k,
{
    if k < end {
        lemma_last_index_scan(s, pred, k, end - 1);
    }
}


/// One step of `split_by`: the piece that starts at `p` ends at the first
/// separator `j` at or after `p`, and the rest starts past `j`.
pub proof fn lemma_split_by_step<A>(s: Seq<A>, sep: spec_fn(A) -> bool, p: int, j: int)
    requires
        0 <= p <= j <= s.len(),
        forall|t: int| p <= t < j ==> !sep(#[trigger] s[t]),
        j < s.len() ==> sep(s[j]),
    ensures
        j < s.len() ==> split_by(s.skip(p), sep) == seq![s.subrange(p, j)] + split_by(
            s.skip(j + 1),
            sep,
        ),
        j == s.len() ==> split_by(s.skip(p), sep) == seq![s.skip(p)],
        split_by(s.skip(p), sep).len() >= 1,
{
    let rest = s.skip(p);
    assert forall|t: int| 0 <= t < j - p implies !sep(#[trigger] rest[t]) by {
        assert(rest[t] == s[p + t]);
    }
    lemma_first_index_scan(rest, sep, 0, j - p);
    if j < s.len() {
        assert(rest[j - p] == s[j]);
        assert(rest.take(j - p) =~= s.subrange(p, j));
        assert(rest.skip(j - p + 1) =~= s.skip(j + 1));
    }
}


/// The bounds of the pieces of `s` between occurrences of `c`, as `str::split`
/// cuts them; the pieces are counted up to `limit + 1` at most.
pub fn split_bounds(s: &[char], c: char, limit: usize, Ghost(sep): Ghost<spec_fn(char) -> bool>) -> (r: Vec<(usize, usize)>)
    requires
        forall|x: char| #[trigger] sep(x) == (x == c),
        limit < usize::MAX,
    ensures
        r@.len() <= limit + 1,
        r@.len() <= limit ==> r@.len() == split_by(s@, sep).len(),
        r@.len() > limit ==> split_by(s@, sep).len() > limit,
        forall|k: int|
            0 <= k < r@.len() ==> r@[k].0 <= r@[k].1 <= s@.len() && s@.subrange(
                #[trigger] r@[k].0 as int,
                r@[k].1 as int,
            ) == split_by(s@, sep)[k],
{
    let ghost ps = split_by(s@, sep);
    let n = s.len();
    let mut out: Vec<(usize, usize)> = Vec::new();
    let mut p: usize = 0;
    assert(s@.skip(0) =~= s@);
    loop
        invariant
            0 <= p <= n,
            n == s@.len(),
            limit < usize::MAX,
            forall|x: char| #[trigger] sep(x) == (x == c),
            ps == split_by(s@, sep),
            out@.len() <= ps.len(),
            out@.len() <= limit,
            ps.skip(out@.len() as int) == split_by(s@.skip(p as int), sep),
            forall|k: int|
                0 <= k < out@.len() ==> out@[k].0 <= out@[k].1 <= s@.len() && s@.subrange(
                    #[trigger] out@[k].0 as int,
                    out@[k].1 as int,
                ) == ps[k],
        decreases n - p,
    {
        let mut j = p;
        while j < n && s[j] != c
            invariant
                p <= j <= n,
                n == s@.len(),
                forall|x: char| #[trigger] sep(x) == (x == c),
                forall|t: int| p <= t < j ==> !sep(#[trigger] s@[t]),
            decreases n - j,
        {
            j = j + 1;
        }
        let ghost k = out@.len() as int;
        proof {
            lemma_split_by_step(s@, sep, p as int, j as int);
            assert(ps.skip(k).len() == ps.len() - k);
            assert(ps.skip(k)[0] == ps[k]);
            assert(s@.subrange(p as int, j as int) == ps[k]) by {
                if j == n {
                    assert(s@.skip(p as int) =~= s@.subrange(p as int, j as int));
                }
            }
        }
        out.push((p, j));
        if j == n {
            assert(ps.len() == k + 1);
            return out;
        }
        if out.len() > limit {
            assert(ps.skip(k).len() >= 2);
            return out;
        }
        assert(ps.skip(k + 1) =~= ps.skip(k).skip(1));
        assert(split_by(s@.skip(p as int), sep).skip(1) =~= split_by(s@.skip(j + 1), sep));
        p = j + 1;
    }
}

/// The bounds of all the pieces of `s` between occurrences of `c` (`str::split`).
pub fn split_all(s: &[char], c: char, Ghost(sep): Ghost<spec_fn(char) -> bool>) -> (r: Vec<(usize, usize)>)
    requires
        forall|x: char| #[trigger] sep(x) == (x == c),
    ensures
        r@.len() == split_by(s@, sep).len(),
        forall|k: int|
            0 <= k < r@.len() ==> r@[k].0 <= r@[k].1 <= s@.len() && s@.subrange(
                #[trigger] r@[k].0 as int,
                r@[k].1 as int,
            ) == split_by(s@, sep)[k],
{
    let ghost ps = split_by(s@, sep);
    let n = s.len();
    let mut out: Vec<(usize, usize)> = Vec::new();
    let mut p: usize = 0;
    assert(s@.skip(0) =~= s@);
    loop
        invariant
            0 <= p <= n,
            n == s@.len(),
            forall|x: char| #[trigger] sep(x) == (x == c),
            ps == split_by(s@, sep),
            out@.len() <= ps.len(),
            ps.skip(out@.len() as int) == split_by(s@.skip(p as int), sep),
            forall|k: int|
                0 <= k < out@.len() ==> out@[k].0 <= out@[k].1 <= s@.len() && s@.subrange(
                    #[trigger] out@[k].0 as int,
                    out@[k].1 as int,
                ) == ps[k],
        decreases n - p,
    {
        let mut j = p;
        while j < n && s[j] != c
            invariant
                p <= j <= n,
                n == s@.len(),
                forall|x: char| #[trigger] sep(x) == (x == c),
                forall|t: int| p <= t < j ==> !sep(#[trigger] s@[t]),
            decreases n - j,
        {
            j = j + 1;
        }
        let ghost k = out@.len() as int;
        proof {
            lemma_split_by_step(s@, sep, p as int, j as int);
            assert(ps.skip(k).len() == ps.len() - k);
            assert(ps.skip(k)[0] == ps[k]);
            assert(s@.subrange(p as int, j as int) == ps[k]) by {
                if j == n {
                    assert(s@.skip(p as int) =~= s@.subrange(p as int, j as int));
                }
            }
        }
        out.push((p, j));
        if j == n {
            assert(ps.len() == k + 1);
            return out;
        }
        assert(ps.skip(k + 1) =~= ps.skip(k).skip(1));
        assert(split_by(s@.skip(p as int), sep).skip(1) =~= split_by(s@.skip(j + 1), sep));
        p = j + 1;
    }
}

// ---------------------------------------------------------------------------
// Trimming
// ---------------------------------------------------------------------------

/// Unicode `White_Space`, the class that `char::is_whitespace` and
/// `str::trim` use.
pub open spec fn is_whitespace(c: char) -> bool {
    ||| '\u{9}' <= c <= '\u{d}'
    ||| c == ' '
    ||| c == '\u{85}'
    ||| c == '\u{a0}'
    ||| c == '\u{1680}'
    ||| '\u{2000}' <= c <= '\u{200a}'
    ||| c == '\u{2028}'
    ||| c == '\u{2029}'
    ||| c == '\u{202f}'
    ||| c == '\u{205f}'
    ||| c == '\u{3000}'
}

pub fn is_whitespace_exec(c: char) -> (r: bool)
    ensures
        r == is_whitespace(c),
{
    ('\u{9}' <= c && c <= '\u{d}') || c == ' ' || c == '\u{85}' || c == '\u{a0}' || c == '\u{1680}'
        || ('\u{2000}' <= c && c <= '\u{200a}') || c == '\u{2028}' || c == '\u{2029}'
        || c == '\u{202f}' || c == '\u{205f}' || c == '\u{3000}'
}

/// The characters that a trim removes: whitespace, or one given character.
pub enum Trimmed {
    Whitespace,
    Char(char),
}

pub open spec fn trimmed_by(t: Trimmed, c: char) -> bool {
    match t {
        Trimmed::Whitespace => is_whitespace(c),
        Trimmed::Char(x) => c == x,
    }
}

fn trimmed_by_exec(t: &Trimmed, c: char) -> (r: bool)
    ensures
        r == trimmed_by(*t, c),
{
    match t {
        Trimmed::Whitespace => is_whitespace_exec(c),
        Trimmed::Char(x) => c == *x,
    }
}

/// `s` without its leading characters of class `t` (`trim_start`, `trim_start_matches`).
pub open spec fn trim_start(s: Seq<char>, t: Trimmed) -> Seq<char>
    decreases s.len(),
{
    if s.len() > 0 && trimmed_by(t, s[0]) {
        trim_start(s.drop_first(), t)
    } else {
        s
    }
}

/// `s` without its trailing characters of class `t` (`trim_end`, `trim_end_matches`).
pub open spec fn trim_end(s: Seq<char>, t: Trimmed) -> Seq<char>
    decreases s.len(),
{
    if s.len() > 0 && trimmed_by(t, s.last()) {
        trim_end(s.drop_last(), t)
    } else {
        s
    }
}

/// `s` without leading and trailing whitespace (`str::trim`).
pub open spec fn trim(s: Seq<char>) -> Seq<char> {
    trim_end(trim_start(s, Trimmed::Whitespace), Trimmed::Whitespace)
}

/// The first index in `lo..hi` past the leading characters of class `t`.
pub fn skip_start(s: &[char], lo: usize, hi: usize, t: &Trimmed) -> (r: usize)
    requires
        lo <= hi <= s@.len(),
    ensures
        lo <= r <= hi,
        s@.subrange(r as int, hi as int) == trim_start(s@.subrange(lo as int, hi as int), *t),
{
    let mut k = lo;
    while k < hi && trimmed_by_exec(t, s[k])
        invariant
            lo <= k <= hi <= s@.len(),
            trim_start(s@.subrange(k as int, hi as int), *t) == trim_start(
                s@.subrange(lo as int, hi as int),
                *t,
            ),
        decreases hi - k,
    {
        assert(s@.subrange(k as int, hi as int).drop_first() =~= s@.subrange(k + 1, hi as int));
        k = k + 1;
    }
    k
}

/// The end of `lo..hi` before the trailing characters of class `t`.
pub fn skip_end(s: &[char], lo: usize, hi: usize, t: &Trimmed) -> (r: usize)
    requires
        lo <= hi <= s@.len(),
    ensures
        lo <= r <= hi,
        s@.subrange(lo as int, r as int) == trim_end(s@.subrange(lo as int, hi as int), *t),
{
    let mut k = hi;
    while k > lo && trimmed_by_exec(t, s[k - 1])
        invariant
            lo <= k <= hi <= s@.len(),
            trim_end(s@.subrange(lo as int, k as int), *t) == trim_end(
                s@.subrange(lo as int, hi as int),
                *t,
            ),
        decreases k,
    {
        assert(s@.subrange(lo as int, k as int).drop_last() =~= s@.subrange(lo as int, k - 1));
        k = k - 1;
    }
    k
}

/// The bounds of `trim(s[lo..hi])`.
pub fn trim_bounds(s: &[char], lo: usize, hi: usize) -> (r: (usize, usize))
    requires
        lo <= hi <= s@.len(),
    ensures
        lo <= r.0 <= r.1 <= hi,
        s@.subrange(r.0 as int, r.1 as int) == trim(s@.subrange(lo as int, hi as int)),
{
    let a = skip_start(s, lo, hi, &Trimmed::Whitespace);
    let b = skip_end(s, a, hi, &Trimmed::Whitespace);
    (a, b)
}

// ---------------------------------------------------------------------------
// Executable searches over characters
// ---------------------------------------------------------------------------

/// Whether `p` occurs in `s` at index `i`.
pub fn occurs_at_chars(s: &[char], p: &[char], i: usize) -> (r: bool)
    ensures
        r == occurs_at(s@, p@, i as int),
{
    if i > s.len() || p.len() > s.len() - i {
        return false;
    }
    let n = p.len();
    let end = i + n;
    let mut k: usize = 0;
    while k < n
        invariant
            n == p@.len(),
            end == i + n,
            end <= s@.len(),
            0 <= k <= n,
            forall|j: int| 0 <= j < k ==> s@[i + j] == p@[j],
        decreases n - k,
    {
        if s[i + k] != p[k] {
            assert(s@.subrange(i as int, i + n)[k as int] != p@[k as int]);
            return false;
        }
        k = k + 1;
    }
    assert(s@.subrange(i as int, i + n) =~= p@);
    true
}

/// Whether `p` occurs in `s` at index `i`.
pub fn occurs_at_bytes(s: &[u8], p: &[u8], i: usize) -> (r: bool)
    ensures
        r == occurs_at(s@, p@, i as int),
{
    if i > s.len() || p.len() > s.len() - i {
        return false;
    }
    let n = p.len();
    let end = i + n;
    let mut k: usize = 0;
    while k < n
        invariant
            n == p@.len(),
            end == i + n,
            end <= s@.len(),
            0 <= k <= n,
            forall|j: int| 0 <= j < k ==> s@[i + j] == p@[j],
        decreases n - k,
    {
        if s[i + k] != p[k] {
            assert(s@.subrange(i as int, i + n)[k as int] != p@[k as int]);
            return false;
        }
        k = k + 1;
    }
    assert(s@.subrange(i as int, i + n) =~= p@);
    true
}

/// The first index at or after `from` where `p` occurs in `s`.
pub fn find_chars_from(s: &[char], p: &[char], from: usize) -> (r: Option<usize>)
    ensures
        r matches Some(i) ==> find_from(s@, p@, from as int) == Some(i as int),
        r is None ==> find_from(s@, p@, from as int) is None,
{
    if from > s.len() || p.len() > s.len() - from {
        proof { lemma_find_scan(s@, p@, from as int, from as int); }
        return None;
    }
    let last = s.len() - p.len();
    let mut k: usize = from;
    loop
        invariant
            from <= k <= last,
            last == s@.len() - p@.len(),
            forall|j: int| from <= j < k ==> !occurs_at(s@, p@, j),
        decreases last - k,
    {
        if occurs_at_chars(s, p, k) {
            proof { lemma_find_scan(s@, p@, from as int, k as int); }
            return Some(k);
        }
        if k == last {
            proof { lemma_find_scan(s@, p@, from as int, k + 1); }
            return None;
        }
        k = k + 1;
    }
}

/// The first index where `p` occurs in `s`.
pub fn find_chars(s: &[char], p: &[char]) -> (r: Option<usize>)
    ensures
        r matches Some(i) ==> find(s@, p@) == Some(i as int),
        r is None ==> find(s@, p@) is None,
{
    find_chars_from(s, p, 0)
}

/// Whether the two character sequences are equal.
pub fn chars_eq(a: &[char], b: &[char]) -> (r: bool)
    ensures
        r == (a@ == b@),
{
    if a.len() != b.len() {
        return false;
    }
    let r = occurs_at_chars(a, b, 0);
    proof {
        assert(a@.subrange(0, a@.len() as int) =~= a@);
    }
    r
}

/// Whether `s` begins with `p`.
pub fn starts_with_chars(s: &[char], p: &[char]) -> (r: bool)
    ensures
        r == starts_with(s@, p@),
{
    occurs_at_chars(s, p, 0)
}

/// Whether `s` ends with `p`.
pub fn ends_with_chars(s: &[char], p: &[char]) -> (r: bool)
    ensures
        r == ends_with(s@, p@),
{
    if p.len() > s.len() {
        return false;
    }
    occurs_at_chars(s, p, s.len() - p.len())
}

} // verus!

verus! {

pub open spec fn ascii_lower(c: char) -> char {
    if 'A' <= c <= 'Z' {
        ((c as u32) + 32) as char
    } else {
        c
    }
}

pub fn ascii_lower_exec(c: char) -> (r: char)
    ensures
        r == ascii_lower(c),
{
    if 'A' <= c && c <= 'Z' {
        ((c as u8) + 32) as char
    } else {
        c
    }
}

} // verus!
