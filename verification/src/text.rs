//! Character-level text primitives shared by the classifiers and parsers.
//!
//! Text is handled as sequences of `char` (`Seq<char>` in specifications,
//! `Vec<char>` in code). The bridges to `str`/`String` are thin wrappers over
//! std; Unicode case mapping and the alphanumeric class are named results of
//! std's tables.
use vstd::prelude::*;

verus! {

// ---------------------------------------------------------------------------
// Bridges to std
// ---------------------------------------------------------------------------

/// `str::chars` collected: the characters of `s`, in order.
#[verifier::external_body]
pub fn chars_of(s: &str) -> (v: Vec<char>)
    ensures
        v@ == s@,
{
    s.chars().collect()
}

/// A `String` built from the given characters (`FromIterator<char>`).
#[verifier::external_body]
pub fn string_of(v: &[char]) -> (s: String)
    ensures
        s@ == v@,
{
    v.iter().collect()
}

/// `str` equality (`<str as PartialEq>::eq`): true exactly when both hold the
/// same characters.
#[verifier::external_body]
pub fn str_eq(a: &str, b: &str) -> (r: bool)
    ensures
        r == (a@ == b@),
{
    a == b
}

/// What `str::to_lowercase` returns for the given characters (Unicode
/// lowercase mapping, including its context rule for final sigma).
pub uninterp spec fn lowercase(s: Seq<char>) -> Seq<char>;

/// `str::to_lowercase`.
#[verifier::external_body]
pub fn to_lowercase(s: &str) -> (r: String)
    ensures
        r@ == lowercase(s@),
{
    s.to_lowercase()
}

/// What `str::to_uppercase` returns for the given characters (Unicode
/// uppercase mapping).
pub uninterp spec fn uppercase(s: Seq<char>) -> Seq<char>;

/// `str::to_uppercase`.
#[verifier::external_body]
pub fn to_uppercase(s: &str) -> (r: String)
    ensures
        r@ == uppercase(s@),
{
    s.to_uppercase()
}

/// What `char::is_alphanumeric` returns (Unicode Alphabetic or Numeric).
pub uninterp spec fn alphanumeric(c: char) -> bool;

/// `char::is_alphanumeric`.
#[verifier::external_body]
pub fn is_alphanumeric(c: char) -> (r: bool)
    ensures
        r == alphanumeric(c),
{
    c.is_alphanumeric()
}

// ---------------------------------------------------------------------------
// Character classes
// ---------------------------------------------------------------------------

/// The Unicode `White_Space` property, which `char::is_whitespace` tests.
pub open spec fn is_ws(c: char) -> bool {
    ||| ('\u{9}' <= c && c <= '\u{d}')
    ||| c == ' '
    ||| c == '\u{85}'
    ||| c == '\u{a0}'
    ||| c == '\u{1680}'
    ||| ('\u{2000}' <= c && c <= '\u{200a}')
    ||| c == '\u{2028}'
    ||| c == '\u{2029}'
    ||| c == '\u{202f}'
    ||| c == '\u{205f}'
    ||| c == '\u{3000}'
}

/// `char::is_whitespace`.
pub fn is_whitespace(c: char) -> (r: bool)
    ensures
        r == is_ws(c),
{
    ('\u{9}' <= c && c <= '\u{d}') || c == ' ' || c == '\u{85}' || c == '\u{a0}' || c
        == '\u{1680}' || ('\u{2000}' <= c && c <= '\u{200a}') || c == '\u{2028}' || c
        == '\u{2029}' || c == '\u{202f}' || c == '\u{205f}' || c == '\u{3000}'
}

/// ASCII whitespace as `u8::is_ascii_whitespace` defines it (space, tab,
/// line feed, form feed, carriage return).
pub open spec fn is_ascii_ws(c: char) -> bool {
    c == ' ' || c == '\t' || c == '\n' || c == '\u{c}' || c == '\r'
}

pub open spec fn is_ascii_lower(c: char) -> bool {
    'a' <= c && c <= 'z'
}

pub open spec fn is_ascii_upper(c: char) -> bool {
    'A' <= c && c <= 'Z'
}

pub open spec fn is_ascii_digit(c: char) -> bool {
    '0' <= c && c <= '9'
}

pub open spec fn is_ascii_alnum(c: char) -> bool {
    is_ascii_lower(c) || is_ascii_upper(c) || is_ascii_digit(c)
}


// ---------------------------------------------------------------------------
// Substrings
// ---------------------------------------------------------------------------

/// `p` occurs in `s` at position `i`.
pub open spec fn occurs_at(s: Seq<char>, p: Seq<char>, i: int) -> bool {
    0 <= i && i + p.len() <= s.len() && s.subrange(i, i + p.len()) == p
}

/// `p` occurs somewhere in `s` (`str::contains` with a string pattern).
pub open spec fn has_sub(s: Seq<char>, p: Seq<char>) -> bool {
    exists|i: int| occurs_at(s, p, i)
}

/// `s` begins with `p`.
pub open spec fn starts_with(s: Seq<char>, p: Seq<char>) -> bool {
    p.len() <= s.len() && s.subrange(0, p.len() as int) == p
}

/// `s` ends with `p`.
pub open spec fn ends_with(s: Seq<char>, p: Seq<char>) -> bool {
    p.len() <= s.len() && s.subrange(s.len() - p.len(), s.len() as int) == p
}

/// Whether `p` occurs in `s` at `i`.
pub fn matches_at(s: &[char], p: &[char], i: usize) -> (r: bool)
    ensures
        r == occurs_at(s@, p@, i as int),
{
    if i > s.len() || p.len() > s.len() - i {
        return false;
    }
    let mut k: usize = 0;
    while k < p.len()
        invariant
            i + p.len() <= s.len(),
            k <= p.len(),
            forall|j: int| 0 <= j < k ==> s@[i + j] == p@[j],
        decreases p.len() - k,
    {
        if s[i + k] != p[k] {
            assert(s@.subrange(i as int, i + p.len())[k as int] != p@[k as int]);
            return false;
        }
        k = k + 1;
    }
    assert(s@.subrange(i as int, i + p.len()) =~= p@);
    true
}

/// The first position at or after `from` where `p` occurs in `s`.
pub open spec fn first_occurrence_from(s: Seq<char>, p: Seq<char>, from: int, i: int) -> bool {
    &&& from <= i
    &&& occurs_at(s, p, i)
    &&& forall|j: int| from <= j < i ==> !occurs_at(s, p, j)
}

/// Position of the first occurrence of `p` in `s` at or after `from`.
pub fn find_from(s: &[char], p: &[char], from: usize) -> (r: Option<usize>)
    ensures
        match r {
            Some(i) => first_occurrence_from(s@, p@, from as int, i as int),
            None => forall|j: int| from <= j ==> !occurs_at(s@, p@, j),
        },
{
    if from > s.len() || p.len() > s.len() - from {
        return None;
    }
    let last = s.len() - p.len();
    let mut i = from;
    while i <= last
        invariant
            from <= i,
            last + p.len() == s.len(),
            forall|j: int| from <= j < i ==> !occurs_at(s@, p@, j),
        decreases last + 1 - i,
    {
        if matches_at(s, p, i) {
            return Some(i);
        }
        if i == last {
            return None;
        }
        i = i + 1;
    }
    None
}

/// `str::contains` with a string pattern.
pub fn contains(s: &[char], p: &[char]) -> (r: bool)
    ensures
        r == has_sub(s@, p@),
{
    match find_from(s, p, 0) {
        Some(i) => true,
        None => {
            assert forall|j: int| !occurs_at(s@, p@, j) by {
                if 0 <= j {
                }
            }
            false
        },
    }
}

/// `str::starts_with` with a string pattern.
pub fn has_prefix(s: &[char], p: &[char]) -> (r: bool)
    ensures
        r == starts_with(s@, p@),
{
    matches_at(s, p, 0)
}

/// `str::ends_with` with a string pattern.
pub fn has_suffix(s: &[char], p: &[char]) -> (r: bool)
    ensures
        r == ends_with(s@, p@),
{
    if p.len() > s.len() {
        return false;
    }
    matches_at(s, p, s.len() - p.len())
}

/// Character-sequence equality.
pub fn seq_equal(a: &[char], b: &[char]) -> (r: bool)
    ensures
        r == (a@ == b@),
{
    if a.len() != b.len() {
        return false;
    }
    let r = matches_at(a, b, 0);
    assert(a@.subrange(0, b.len() as int) =~= a@);
    r
}

/// Copy of `s[a..b]`.
pub fn slice_vec(s: &[char], a: usize, b: usize) -> (r: Vec<char>)
    requires
        a <= b <= s.len(),
    ensures
        r@ == s@.subrange(a as int, b as int),
{
    let mut r: Vec<char> = Vec::new();
    let mut i = a;
    while i < b
        invariant
            a <= i <= b,
            b <= s.len(),
            r@ == s@.subrange(a as int, i as int),
        decreases b - i,
    {
        r.push(s[i]);
        i = i + 1;
        assert(r@ =~= s@.subrange(a as int, i as int));
    }
    r
}


// ---------------------------------------------------------------------------
// Trimming
// ---------------------------------------------------------------------------

/// `s` without its leading whitespace (`str::trim_start`).
pub open spec fn trim_start(s: Seq<char>) -> Seq<char>
    decreases s.len(),
{
    if s.len() > 0 && is_ws(s[0]) {
        trim_start(s.drop_first())
    } else {
        s
    }
}

/// `s` without its trailing whitespace (`str::trim_end`).
pub open spec fn trim_end(s: Seq<char>) -> Seq<char>
    decreases s.len(),
{
    if s.len() > 0 && is_ws(s.last()) {
        trim_end(s.drop_last())
    } else {
        s
    }
}

/// `s` without leading and trailing whitespace (`str::trim`).
pub open spec fn trim(s: Seq<char>) -> Seq<char> {
    trim_end(trim_start(s))
}

/// Index of the first non-whitespace character of `s` (or its length).
pub fn trim_start_index(s: &[char]) -> (i: usize)
    ensures
        i <= s.len(),
        trim_start(s@) == s@.subrange(i as int, s.len() as int),
{
    let mut i: usize = 0;
    assert(s@.subrange(0, s.len() as int) =~= s@);
    while i < s.len() && is_whitespace(s[i])
        invariant
            i <= s.len(),
            trim_start(s@) == trim_start(s@.subrange(i as int, s.len() as int)),
        decreases s.len() - i,
    {
        assert(s@.subrange(i as int, s.len() as int).drop_first() =~= s@.subrange(
            i + 1,
            s.len() as int,
        ));
        i = i + 1;
    }
    i
}

/// Index one past the last non-whitespace character of `s[..end]` (or 0).
pub fn trim_end_index(s: &[char], end: usize) -> (j: usize)
    requires
        end <= s.len(),
    ensures
        j <= end,
        trim_end(s@.subrange(0, end as int)) == s@.subrange(0, j as int),
{
    let mut j: usize = end;
    while j > 0 && is_whitespace(s[j - 1])
        invariant
            j <= end <= s.len(),
            trim_end(s@.subrange(0, end as int)) == trim_end(s@.subrange(0, j as int)),
        decreases j,
    {
        assert(s@.subrange(0, j as int).drop_last() =~= s@.subrange(0, j - 1));
        j = j - 1;
    }
    j
}

/// Trimming the end of a suffix of `s` gives the same suffix of `trim_end(s)`.
pub proof fn lemma_trim_end_suffix(s: Seq<char>, i: int)
    requires
        0 <= i <= s.len(),
    ensures
        trim_end(s.subrange(i, s.len() as int)) == {
            let t = trim_end(s);
            if t.len() >= i {
                t.subrange(i, t.len() as int)
            } else {
                Seq::<char>::empty()
            }
        },
    decreases s.len(),
{
    if s.len() > 0 && is_ws(s.last()) {
        if i < s.len() {
            assert(s.subrange(i, s.len() as int).drop_last() =~= s.drop_last().subrange(
                i,
                s.drop_last().len() as int,
            ));
        }
        if i == s.len() {
            assert(s.subrange(i, s.len() as int) =~= Seq::<char>::empty());
            lemma_trim_end_len(s);
        } else {
            lemma_trim_end_suffix(s.drop_last(), i);
        }
    }
}

/// Trimming never lengthens.
pub proof fn lemma_trim_end_len(s: Seq<char>)
    ensures
        trim_end(s).len() <= s.len(),
    decreases s.len(),
{
    if s.len() > 0 && is_ws(s.last()) {
        lemma_trim_end_len(s.drop_last());
    }
}

/// `str::trim`, as a range `[a, b)` of `s`.
pub fn trim_range(s: &[char]) -> (r: (usize, usize))
    ensures
        r.0 <= r.1 <= s.len(),
        trim(s@) == s@.subrange(r.0 as int, r.1 as int),
{
    let j = trim_end_index(s, s.len());
    assert(s@.subrange(0, s.len() as int) =~= s@);
    let i = trim_start_index(s);
    proof {
        lemma_trim_end_suffix(s@, i as int);
        lemma_trim_end_len(s@);
    }
    if i >= j {
        assert(trim_end(s@.subrange(i as int, s.len() as int)) =~= Seq::<char>::empty());
        (j, j)
    } else {
        assert(s@.subrange(0, j as int).subrange(i as int, j as int) =~= s@.subrange(
            i as int,
            j as int,
        ));
        (i, j)
    }
}

/// `str::trim`, copied.
pub fn trim_vec(s: &[char]) -> (r: Vec<char>)
    ensures
        r@ == trim(s@),
{
    let (a, b) = trim_range(s);
    slice_vec(s, a, b)
}


// ---------------------------------------------------------------------------
// Splitting
// ---------------------------------------------------------------------------

/// The character sequences held by a vector of character vectors.
pub open spec fn views(v: Seq<Vec<char>>) -> Seq<Seq<char>> {
    v.map_values(|w: Vec<char>| w@)
}

/// Words of `s` (`str::split_whitespace`), given the word `cur` already begun
/// before `s`.
pub open spec fn words_from(s: Seq<char>, cur: Seq<char>) -> Seq<Seq<char>>
    decreases s.len(),
{
    if s.len() == 0 {
        if cur.len() > 0 {
            seq![cur]
        } else {
            seq![]
        }
    } else if is_ws(s[0]) {
        (if cur.len() > 0 {
            seq![cur]
        } else {
            seq![]
        }) + words_from(s.drop_first(), seq![])
    } else {
        words_from(s.drop_first(), cur.push(s[0]))
    }
}

/// The maximal runs of non-whitespace characters of `s`, in order
/// (`str::split_whitespace`).
pub open spec fn words(s: Seq<char>) -> Seq<Seq<char>> {
    words_from(s, seq![])
}

/// `str::split_whitespace`, collected.
pub fn split_whitespace(s: &[char]) -> (r: Vec<Vec<char>>)
    ensures
        views(r@) == words(s@),
{
    let mut out: Vec<Vec<char>> = Vec::new();
    let mut cur: Vec<char> = Vec::new();
    let mut i: usize = 0;
    assert(s@.subrange(0, s.len() as int) =~= s@);
    while i < s.len()
        invariant
            i <= s.len(),
            words(s@) == views(out@) + words_from(s@.subrange(i as int, s.len() as int), cur@),
        decreases s.len() - i,
    {
        let ghost rest = s@.subrange(i as int, s.len() as int);
        assert(rest.drop_first() =~= s@.subrange(i + 1, s.len() as int));
        let c = s[i];
        if is_whitespace(c) {
            if cur.len() > 0 {
                let w = cur;
                cur = Vec::new();
                proof {
                    assert(views(out@.push(w)) =~= views(out@) + seq![w@]);
                }
                out.push(w);
            } else {
                assert(seq![] + words_from(rest.drop_first(), seq![]) =~= words_from(
                    rest.drop_first(),
                    seq![],
                ));
            }
            assert(cur@ =~= Seq::<char>::empty());
        } else {
            cur.push(c);
        }
        i = i + 1;
    }
    let ghost rest = s@.subrange(i as int, s.len() as int);
    assert(rest =~= Seq::<char>::empty());
    if cur.len() > 0 {
        proof {
            assert(views(out@.push(cur)) =~= views(out@) + seq![cur@]);
        }
        out.push(cur);
    } else {
        assert(views(out@) + seq![] =~= views(out@));
    }
    out
}

/// Number of words of `s` (`split_whitespace().count()`).
pub fn word_count(s: &[char]) -> (n: usize)
    ensures
        n == words(s@).len(),
{
    let w = split_whitespace(s);
    w.len()
}

/// Lines of `s` as `str::lines` yields them, given the line `cur` already
/// begun before `s`: pieces ending in `\n` lose it and then one `\r` before
/// it; a final piece without `\n` is kept as is; no empty final piece.
pub open spec fn lines_from(s: Seq<char>, cur: Seq<char>) -> Seq<Seq<char>>
    decreases s.len(),
{
    if s.len() == 0 {
        if cur.len() > 0 {
            seq![cur]
        } else {
            seq![]
        }
    } else if s[0] == '\n' {
        seq![strip_cr(cur)] + lines_from(s.drop_first(), seq![])
    } else {
        lines_from(s.drop_first(), cur.push(s[0]))
    }
}

/// A line body without one trailing carriage return.
pub open spec fn strip_cr(l: Seq<char>) -> Seq<char> {
    if l.len() > 0 && l.last() == '\r' {
        l.drop_last()
    } else {
        l
    }
}

/// The lines of `s` (`str::lines`).
pub open spec fn lines(s: Seq<char>) -> Seq<Seq<char>> {
    lines_from(s, seq![])
}

/// `str::lines`, collected.
pub fn split_lines(s: &[char]) -> (r: Vec<Vec<char>>)
    ensures
        views(r@) == lines(s@),
{
    let mut out: Vec<Vec<char>> = Vec::new();
    let mut cur: Vec<char> = Vec::new();
    let mut i: usize = 0;
    assert(s@.subrange(0, s.len() as int) =~= s@);
    while i < s.len()
        invariant
            i <= s.len(),
            lines(s@) == views(out@) + lines_from(s@.subrange(i as int, s.len() as int), cur@),
        decreases s.len() - i,
    {
        let ghost rest = s@.subrange(i as int, s.len() as int);
        assert(rest.drop_first() =~= s@.subrange(i + 1, s.len() as int));
        let c = s[i];
        if c == '\n' {
            let mut w = cur;
            if w.len() > 0 && w[w.len() - 1] == '\r' {
                w.pop();
            }
            assert(w@ =~= strip_cr(cur@));
            cur = Vec::new();
            proof {
                assert(views(out@.push(w)) =~= views(out@) + seq![w@]);
            }
            out.push(w);
            assert(cur@ =~= Seq::<char>::empty());
        } else {
            cur.push(c);
        }
        i = i + 1;
    }
    let ghost rest = s@.subrange(i as int, s.len() as int);
    assert(rest =~= Seq::<char>::empty());
    if cur.len() > 0 {
        proof {
            assert(views(out@.push(cur)) =~= views(out@) + seq![cur@]);
        }
        out.push(cur);
    } else {
        assert(views(out@) + seq![] =~= views(out@));
    }
    out
}


// ---------------------------------------------------------------------------
// Marker lists
// ---------------------------------------------------------------------------

/// The characters of each string of a list.
pub open spec fn str_views(v: Seq<&str>) -> Seq<Seq<char>> {
    v.map_values(|p: &str| p@)
}

/// Some pattern of `pats` occurs in `s`.
pub open spec fn any_sub(s: Seq<char>, pats: Seq<Seq<char>>) -> bool {
    exists|k: int| 0 <= k < pats.len() && has_sub(s, #[trigger] pats[k])
}

/// The number of patterns of `pats` that occur in `s`.
pub open spec fn count_subs(s: Seq<char>, pats: Seq<Seq<char>>) -> nat
    decreases pats.len(),
{
    if pats.len() == 0 {
        0
    } else {
        count_subs(s, pats.drop_last()) + if has_sub(s, pats.last()) {
            1nat
        } else {
            0nat
        }
    }
}

/// Whether some pattern of `pats` occurs in `s`.
pub fn contains_any(s: &[char], pats: &[&str]) -> (r: bool)
    ensures
        r == any_sub(s@, str_views(pats@)),
{
    let mut k: usize = 0;
    while k < pats.len()
        invariant
            k <= pats.len(),
            forall|j: int| 0 <= j < k ==> !has_sub(s@, #[trigger] str_views(pats@)[j]),
        decreases pats.len() - k,
    {
        let p = chars_of(pats[k]);
        if contains(s, p.as_slice()) {
            assert(has_sub(s@, str_views(pats@)[k as int]));
            return true;
        }
        k = k + 1;
    }
    false
}

/// How many patterns of `pats` occur in `s`.
pub fn count_contained(s: &[char], pats: &[&str]) -> (n: usize)
    ensures
        n == count_subs(s@, str_views(pats@)),
        n <= pats.len(),
{
    let mut k: usize = 0;
    let mut n: usize = 0;
    while k < pats.len()
        invariant
            k <= pats.len(),
            n <= k,
            n == count_subs(s@, str_views(pats@).subrange(0, k as int)),
        decreases pats.len() - k,
    {
        let p = chars_of(pats[k]);
        assert(str_views(pats@).subrange(0, k + 1).drop_last() =~= str_views(pats@).subrange(
            0,
            k as int,
        ));
        if contains(s, p.as_slice()) {
            n = n + 1;
        }
        k = k + 1;
    }
    assert(str_views(pats@).subrange(0, pats.len() as int) =~= str_views(pats@));
    n
}


// ---------------------------------------------------------------------------
// UTF-8 length
// ---------------------------------------------------------------------------

/// UTF-8 encoding distributes over concatenation.
pub proof fn lemma_encode_utf8_concat(a: Seq<char>, b: Seq<char>)
    ensures
        vstd::utf8::encode_utf8(a + b) == vstd::utf8::encode_utf8(a) + vstd::utf8::encode_utf8(b),
    decreases a.len(),
{
    if a.len() == 0 {
        assert(a + b =~= b);
        assert(vstd::utf8::encode_utf8(a) =~= Seq::<u8>::empty());
        assert(Seq::<u8>::empty() + vstd::utf8::encode_utf8(b) =~= vstd::utf8::encode_utf8(b));
    } else {
        assert((a + b).drop_first() =~= a.drop_first() + b);
        lemma_encode_utf8_concat(a.drop_first(), b);
        assert((a + b)[0] == a[0]);
        assert(vstd::utf8::encode_scalar(a[0] as u32) + (vstd::utf8::encode_utf8(a.drop_first())
            + vstd::utf8::encode_utf8(b)) =~= (vstd::utf8::encode_scalar(a[0] as u32)
            + vstd::utf8::encode_utf8(a.drop_first())) + vstd::utf8::encode_utf8(b));
    }
}

/// Number of bytes of the UTF-8 encoding of `c`.
pub fn utf8_width(c: char) -> (w: usize)
    ensures
        w == vstd::utf8::encode_scalar(c as u32).len(),
        1 <= w <= 4,
{
    proof {
        vstd::utf8::char_is_scalar(c);
    }
    if c <= '\u{7f}' {
        1
    } else if c <= '\u{7ff}' {
        2
    } else if c <= '\u{ffff}' {
        3
    } else {
        4
    }
}

/// Whether the UTF-8 encoding of `s` is at least `k` bytes long.
pub fn utf8_len_at_least(s: &[char], k: usize) -> (r: bool)
    requires
        k <= usize::MAX - 4,
    ensures
        r == (vstd::utf8::encode_utf8(s@).len() >= k),
{
    let mut i: usize = 0;
    let mut n: usize = 0;
    while i < s.len() && n < k
        invariant
            i <= s.len(),
            n == vstd::utf8::encode_utf8(s@.subrange(0, i as int)).len(),
            n < k + 4,
            k <= usize::MAX - 4,
        decreases s.len() - i,
    {
        let w = utf8_width(s[i]);
        proof {
            assert(s@.subrange(0, i + 1) =~= s@.subrange(0, i as int) + seq![s@[i as int]]);
            lemma_encode_utf8_concat(s@.subrange(0, i as int), seq![s@[i as int]]);
            assert(seq![s@[i as int]].drop_first() =~= Seq::<char>::empty());
            assert(vstd::utf8::encode_utf8(seq![s@[i as int]]) =~= vstd::utf8::encode_scalar(
                s@[i as int] as u32,
            ) + vstd::utf8::encode_utf8(Seq::<char>::empty()));
        }
        n = n + w;
        i = i + 1;
    }
    if n >= k {
        proof {
            assert(s@ =~= s@.subrange(0, i as int) + s@.subrange(i as int, s.len() as int));
            lemma_encode_utf8_concat(s@.subrange(0, i as int), s@.subrange(i as int, s.len() as int));
        }
        true
    } else {
        assert(s@.subrange(0, i as int) =~= s@);
        false
    }
}


/// The length in bytes of the UTF-8 encoding of `s`, when it is below `k`.
pub fn utf8_len_below(s: &[char], k: usize) -> (r: Option<usize>)
    requires
        k <= usize::MAX - 4,
    ensures
        match r {
            Some(n) => n == vstd::utf8::encode_utf8(s@).len() && n < k,
            None => vstd::utf8::encode_utf8(s@).len() >= k,
        },
{
    let mut i: usize = 0;
    let mut n: usize = 0;
    while i < s.len() && n < k
        invariant
            i <= s.len(),
            n == vstd::utf8::encode_utf8(s@.subrange(0, i as int)).len(),
            n < k + 4,
            k <= usize::MAX - 4,
        decreases s.len() - i,
    {
        let w = utf8_width(s[i]);
        proof {
            assert(s@.subrange(0, i + 1) =~= s@.subrange(0, i as int) + seq![s@[i as int]]);
            lemma_encode_utf8_concat(s@.subrange(0, i as int), seq![s@[i as int]]);
            assert(seq![s@[i as int]].drop_first() =~= Seq::<char>::empty());
            assert(vstd::utf8::encode_utf8(seq![s@[i as int]]) =~= vstd::utf8::encode_scalar(
                s@[i as int] as u32,
            ) + vstd::utf8::encode_utf8(Seq::<char>::empty()));
        }
        n = n + w;
        i = i + 1;
    }
    if n >= k {
        proof {
            assert(s@ =~= s@.subrange(0, i as int) + s@.subrange(i as int, s.len() as int));
            lemma_encode_utf8_concat(s@.subrange(0, i as int), s@.subrange(i as int, s.len() as int));
        }
        None
    } else {
        assert(s@.subrange(0, i as int) =~= s@);
        Some(n)
    }
}

// ---------------------------------------------------------------------------
// ASCII case folding
// ---------------------------------------------------------------------------

/// `char::to_ascii_lowercase`: ASCII upper-case letters map to lower case,
/// every other character is kept.
pub open spec fn ascii_lower(c: char) -> char {
    if is_ascii_upper(c) {
        ((c as int) + 32) as char
    } else {
        c
    }
}

/// `str::to_ascii_lowercase`, character by character.
pub open spec fn ascii_lower_seq(s: Seq<char>) -> Seq<char> {
    s.map_values(|c: char| ascii_lower(c))
}

/// `char::to_ascii_lowercase`.
pub fn ascii_lower_char(c: char) -> (r: char)
    ensures
        r == ascii_lower(c),
{
    if 'A' <= c && c <= 'Z' {
        let b: u8 = (c as u32) as u8;
        (b + 32) as char
    } else {
        c
    }
}

/// `str::to_ascii_lowercase`, on characters.
pub fn ascii_lowercase(s: &[char]) -> (r: Vec<char>)
    ensures
        r@ == ascii_lower_seq(s@),
{
    let mut r: Vec<char> = Vec::new();
    let mut i: usize = 0;
    while i < s.len()
        invariant
            i <= s.len(),
            r@ == ascii_lower_seq(s@.subrange(0, i as int)),
        decreases s.len() - i,
    {
        r.push(ascii_lower_char(s[i]));
        i = i + 1;
        assert(ascii_lower_seq(s@.subrange(0, i as int)) =~= ascii_lower_seq(
            s@.subrange(0, i - 1),
        ).push(ascii_lower(s@[i - 1])));
    }
    assert(s@.subrange(0, s.len() as int) =~= s@);
    r
}


// ---------------------------------------------------------------------------
// Strings, lists of strings, joining and splitting on a character
// ---------------------------------------------------------------------------

/// The character sequences held by a list of strings.
pub open spec fn string_views(v: Seq<String>) -> Seq<Seq<char>> {
    v.map_values(|w: String| w@)
}

/// Whether `a` holds exactly the characters of `lit`.
pub fn eq_lit(a: &[char], lit: &str) -> (r: bool)
    ensures
        r == (a@ == lit@),
{
    let l = chars_of(lit);
    seq_equal(a, l.as_slice())
}

/// Whether `a` equals one of the strings of `lits`.
pub fn in_list(a: &[char], lits: &[&str]) -> (r: bool)
    ensures
        r == str_views(lits@).contains(a@),
{
    let mut k: usize = 0;
    while k < lits.len()
        invariant
            k <= lits.len(),
            forall|j: int| 0 <= j < k ==> str_views(lits@)[j] != a@,
        decreases lits.len() - k,
    {
        if eq_lit(a, lits[k]) {
            assert(str_views(lits@)[k as int] == a@);
            return true;
        }
        k = k + 1;
    }
    false
}

/// The pieces of `parts` joined, with `sep` between neighbours
/// (`[String]::join`).
pub open spec fn join(parts: Seq<Seq<char>>, sep: Seq<char>) -> Seq<char>
    decreases parts.len(),
{
    if parts.len() == 0 {
        seq![]
    } else if parts.len() == 1 {
        parts[0]
    } else {
        join(parts.drop_last(), sep) + sep + parts.last()
    }
}

/// `[Vec<char>]::join`, with a separator.
pub fn join_chars(parts: &Vec<Vec<char>>, sep: &[char]) -> (r: Vec<char>)
    ensures
        r@ == join(views(parts@), sep@),
{
    let mut r: Vec<char> = Vec::new();
    let mut k: usize = 0;
    while k < parts.len()
        invariant
            k <= parts.len(),
            r@ == join(views(parts@).subrange(0, k as int), sep@),
        decreases parts.len() - k,
    {
        let ghost before = r@;
        if k > 0 {
            let mut i: usize = 0;
            while i < sep.len()
                invariant
                    i <= sep.len(),
                    r@ == before + sep@.subrange(0, i as int),
                decreases sep.len() - i,
            {
                r.push(sep[i]);
                i = i + 1;
                assert(r@ =~= before + sep@.subrange(0, i as int));
            }
        }
        let ghost mid = r@;
        let p = &parts[k];
        let mut i: usize = 0;
        while i < p.len()
            invariant
                i <= p.len(),
                r@ == mid + p@.subrange(0, i as int),
            decreases p.len() - i,
        {
            r.push(p[i]);
            i = i + 1;
            assert(r@ =~= mid + p@.subrange(0, i as int));
        }
        proof {
            let vs = views(parts@).subrange(0, k + 1);
            assert(vs.drop_last() =~= views(parts@).subrange(0, k as int));
            assert(p@.subrange(0, p.len() as int) =~= p@);
            assert(sep@.subrange(0, sep.len() as int) =~= sep@);
            if k == 0 {
                assert(r@ =~= join(vs, sep@));
            } else {
                assert(r@ =~= join(vs, sep@));
            }
        }
        k = k + 1;
    }
    assert(views(parts@).subrange(0, parts.len() as int) =~= views(parts@));
    r
}

/// The pieces of `s` between occurrences of `c`, given the piece `cur`
/// already begun (`str::split` with a character pattern).
pub open spec fn split_from(s: Seq<char>, c: char, cur: Seq<char>) -> Seq<Seq<char>>
    decreases s.len(),
{
    if s.len() == 0 {
        seq![cur]
    } else if s[0] == c {
        seq![cur] + split_from(s.drop_first(), c, seq![])
    } else {
        split_from(s.drop_first(), c, cur.push(s[0]))
    }
}

/// `str::split(c)`: the pieces between occurrences of `c` (always at least one).
pub open spec fn split_on(s: Seq<char>, c: char) -> Seq<Seq<char>> {
    split_from(s, c, seq![])
}

/// `str::split(c)`, collected.
pub fn split_char(s: &[char], c: char) -> (r: Vec<Vec<char>>)
    ensures
        views(r@) == split_on(s@, c),
{
    let mut out: Vec<Vec<char>> = Vec::new();
    let mut cur: Vec<char> = Vec::new();
    let mut i: usize = 0;
    assert(s@.subrange(0, s.len() as int) =~= s@);
    while i < s.len()
        invariant
            i <= s.len(),
            split_on(s@, c) == views(out@) + split_from(s@.subrange(i as int, s.len() as int), c, cur@),
        decreases s.len() - i,
    {
        let ghost rest = s@.subrange(i as int, s.len() as int);
        assert(rest.drop_first() =~= s@.subrange(i + 1, s.len() as int));
        let x = s[i];
        if x == c {
            let w = cur;
            cur = Vec::new();
            proof {
                assert(views(out@.push(w)) =~= views(out@) + seq![w@]);
                assert(cur@ =~= Seq::<char>::empty());
            }
            out.push(w);
        } else {
            cur.push(x);
        }
        i = i + 1;
    }
    let ghost rest = s@.subrange(i as int, s.len() as int);
    assert(rest =~= Seq::<char>::empty());
    proof {
        assert(views(out@.push(cur)) =~= views(out@) + seq![cur@]);
    }
    out.push(cur);
    out
}

/// Number of occurrences of `c` in `s` (`str::matches(c).count()`).
pub open spec fn count_char(s: Seq<char>, c: char) -> nat
    decreases s.len(),
{
    if s.len() == 0 {
        0
    } else {
        count_char(s.drop_last(), c) + if s.last() == c {
            1nat
        } else {
            0nat
        }
    }
}

/// `str::matches(c).count()`.
pub fn count_of(s: &[char], c: char) -> (n: usize)
    ensures
        n == count_char(s@, c),
{
    let mut n: usize = 0;
    let mut i: usize = 0;
    while i < s.len()
        invariant
            i <= s.len(),
            n <= i,
            n == count_char(s@.subrange(0, i as int), c),
        decreases s.len() - i,
    {
        assert(s@.subrange(0, i + 1).drop_last() =~= s@.subrange(0, i as int));
        if s[i] == c {
            n = n + 1;
        }
        i = i + 1;
    }
    assert(s@.subrange(0, s.len() as int) =~= s@);
    n
}


/// Appends the characters of `s` to `v`.
pub fn push_all(v: &mut Vec<char>, s: &[char])
    ensures
        final(v)@ == old(v)@ + s@,
{
    let ghost start = v@;
    let mut i: usize = 0;
    while i < s.len()
        invariant
            i <= s.len(),
            v@ == start + s@.subrange(0, i as int),
        decreases s.len() - i,
    {
        v.push(s[i]);
        i = i + 1;
        assert(v@ =~= start + s@.subrange(0, i as int));
    }
    assert(s@.subrange(0, s.len() as int) =~= s@);
}

/// Each character vector as a `String`.
pub fn to_strings(v: &Vec<Vec<char>>) -> (r: Vec<String>)
    ensures
        string_views(r@) == views(v@),
{
    let mut r: Vec<String> = Vec::new();
    let mut k: usize = 0;
    while k < v.len()
        invariant
            k <= v.len(),
            string_views(r@) == views(v@).subrange(0, k as int),
        decreases v.len() - k,
    {
        let s = string_of(v[k].as_slice());
        assert(s@ == views(v@)[k as int]);
        let ghost before = r@;
        r.push(s);
        assert(r@ == before.push(s));
        assert(string_views(r@) =~= string_views(before).push(s@));
        k = k + 1;
        assert(string_views(r@) =~= views(v@).subrange(0, k as int));
    }
    assert(views(v@).subrange(0, v.len() as int) =~= views(v@));
    r
}


/// Splitting into words distributes over two pieces joined by a space.
pub proof fn lemma_words_space_join(a: Seq<char>, b: Seq<char>, cur: Seq<char>)
    ensures
        words_from(a + seq![' '] + b, cur) == words_from(a, cur) + words_from(b, seq![]),
    decreases a.len(),
{
    let t = a + seq![' '] + b;
    if a.len() == 0 {
        assert(t[0] == ' ');
        assert(t.drop_first() =~= b);
        if cur.len() > 0 {
            assert(words_from(a, cur) =~= seq![cur]);
        } else {
            assert(words_from(a, cur) =~= Seq::<Seq<char>>::empty());
            assert(words_from(a, cur) + words_from(b, seq![]) =~= words_from(b, seq![]));
            assert(seq![] + words_from(b, seq![]) =~= words_from(b, seq![]));
        }
    } else {
        assert(t[0] == a[0]);
        assert(t.drop_first() =~= a.drop_first() + seq![' '] + b);
        if is_ws(a[0]) {
            lemma_words_space_join(a.drop_first(), b, seq![]);
            let head: Seq<Seq<char>> = if cur.len() > 0 {
                seq![cur]
            } else {
                seq![]
            };
            assert(head + (words_from(a.drop_first(), seq![]) + words_from(b, seq![])) =~= (head
                + words_from(a.drop_first(), seq![])) + words_from(b, seq![]));
        } else {
            lemma_words_space_join(a.drop_first(), b, cur.push(a[0]));
        }
    }
}

/// A whitespace character between two texts separates their words.
pub proof fn lemma_words_ws_join(a: Seq<char>, c: char, b: Seq<char>, cur: Seq<char>)
    requires
        is_ws(c),
    ensures
        words_from(a + seq![c] + b, cur) == words_from(a, cur) + words_from(b, seq![]),
    decreases a.len(),
{
    let t = a + seq![c] + b;
    if a.len() == 0 {
        assert(t[0] == c);
        assert(t.drop_first() =~= b);
        if cur.len() > 0 {
            assert(words_from(a, cur) =~= seq![cur]);
        } else {
            assert(words_from(a, cur) =~= Seq::<Seq<char>>::empty());
            assert(seq![] + words_from(b, seq![]) =~= words_from(b, seq![]));
        }
    } else {
        assert(t[0] == a[0]);
        assert(t.drop_first() =~= a.drop_first() + seq![c] + b);
        if is_ws(a[0]) {
            lemma_words_ws_join(a.drop_first(), c, b, seq![]);
            let head: Seq<Seq<char>> = if cur.len() > 0 {
                seq![cur]
            } else {
                seq![]
            };
            assert(head + (words_from(a.drop_first(), seq![]) + words_from(b, seq![])) =~= (head
                + words_from(a.drop_first(), seq![])) + words_from(b, seq![]));
        } else {
            lemma_words_ws_join(a.drop_first(), c, b, cur.push(a[0]));
        }
    }
}

/// Trailing whitespace adds no word.
pub proof fn lemma_words_trailing_ws(a: Seq<char>, c: char)
    requires
        is_ws(c),
    ensures
        words(a.push(c)) == words(a),
{
    lemma_words_ws_join(a, c, seq![], seq![]);
    assert(a + seq![c] + seq![] =~= a.push(c));
    assert(words_from(seq![], seq![]) =~= Seq::<Seq<char>>::empty());
    assert(words(a) + Seq::<Seq<char>>::empty() =~= words(a));
}

/// Trimming keeps the words.
pub proof fn lemma_words_trim(s: Seq<char>)
    ensures
        words(trim(s)) == words(s),
        words(trim_start(s)) == words(s),
{
    lemma_words_trim_start(s);
    lemma_words_trim_end(trim_start(s));
}

proof fn lemma_words_trim_start(s: Seq<char>)
    ensures
        words(trim_start(s)) == words(s),
    decreases s.len(),
{
    if s.len() > 0 && is_ws(s[0]) {
        lemma_words_trim_start(s.drop_first());
        assert(words_from(s, seq![]) =~= Seq::<Seq<char>>::empty() + words_from(s.drop_first(), seq![]));
    }
}

proof fn lemma_words_trim_end(s: Seq<char>)
    ensures
        words(trim_end(s)) == words(s),
    decreases s.len(),
{
    if s.len() > 0 && is_ws(s.last()) {
        lemma_words_trim_end(s.drop_last());
        lemma_words_trailing_ws(s.drop_last(), s.last());
        assert(s.drop_last().push(s.last()) =~= s);
    }
}

/// The words of the pieces, in order.
pub open spec fn flat_words(ps: Seq<Seq<char>>) -> Seq<Seq<char>>
    decreases ps.len(),
{
    if ps.len() == 0 {
        seq![]
    } else {
        words(ps[0]) + flat_words(ps.drop_first())
    }
}

/// The words of two lists of pieces are the words of each, in order.
pub proof fn lemma_flat_words_concat(a: Seq<Seq<char>>, b: Seq<Seq<char>>)
    ensures
        flat_words(a + b) == flat_words(a) + flat_words(b),
    decreases a.len(),
{
    if a.len() == 0 {
        assert(a + b =~= b);
        assert(flat_words(a) + flat_words(b) =~= flat_words(b));
    } else {
        assert((a + b).drop_first() =~= a.drop_first() + b);
        assert((a + b)[0] == a[0]);
        lemma_flat_words_concat(a.drop_first(), b);
        assert(words(a[0]) + (flat_words(a.drop_first()) + flat_words(b)) =~= (words(a[0]) + flat_words(
            a.drop_first(),
        )) + flat_words(b));
    }
}

/// The words of one piece.
pub proof fn lemma_flat_words_one(p: Seq<char>)
    ensures
        flat_words(seq![p]) == words(p),
{
    let one = seq![p];
    assert(one.drop_first() =~= Seq::<Seq<char>>::empty());
    assert(one[0] == p);
    assert(flat_words(one.drop_first()) =~= Seq::<Seq<char>>::empty());
    assert(flat_words(one) == words(one[0]) + flat_words(one.drop_first()));
    assert(words(p) + Seq::<Seq<char>>::empty() =~= words(p));
}

/// Pieces joined by spaces have the words of the pieces, in order.
pub proof fn lemma_words_of_joined(parts: Seq<Seq<char>>)
    ensures
        words(join(parts, seq![' '])) == flat_words(parts),
    decreases parts.len(),
{
    if parts.len() == 0 {
        assert(words(join(parts, seq![' '])) =~= Seq::<Seq<char>>::empty());
    } else if parts.len() == 1 {
        assert(parts =~= seq![parts[0]]);
        lemma_flat_words_one(parts[0]);
    } else {
        lemma_words_of_joined(parts.drop_last());
        lemma_words_ws_join(join(parts.drop_last(), seq![' ']), ' ', parts.last(), seq![]);
        lemma_flat_words_concat(parts.drop_last(), seq![parts.last()]);
        lemma_flat_words_one(parts.last());
        assert(parts.drop_last() + seq![parts.last()] =~= parts);
    }
}

/// The lines of a text, given the line `cur` begun before it, hold the
/// words of `cur` and the text, in order.
pub proof fn lemma_words_of_lines(s: Seq<char>, cur: Seq<char>)
    ensures
        flat_words(lines_from(s, cur)) == words(cur + s),
    decreases s.len(),
{
    if s.len() == 0 {
        assert(cur + s =~= cur);
        if cur.len() > 0 {
            lemma_flat_words_one(cur);
        } else {
            assert(words(cur) =~= Seq::<Seq<char>>::empty());
        }
    } else if s[0] == '\n' {
        let rest = s.drop_first();
        lemma_words_of_lines(rest, seq![]);
        assert(seq![] + rest =~= rest);
        lemma_words_ws_join(cur, '\n', rest, seq![]);
        assert(cur + seq!['\n'] + rest =~= cur + s);
        if cur.len() > 0 && cur.last() == '\r' {
            lemma_words_trailing_ws(cur.drop_last(), '\r');
            assert(cur.drop_last().push('\r') =~= cur);
        }
        lemma_flat_words_concat(seq![strip_cr(cur)], lines_from(rest, seq![]));
        lemma_flat_words_one(strip_cr(cur));
    } else {
        lemma_words_of_lines(s.drop_first(), cur.push(s[0]));
        assert(cur.push(s[0]) + s.drop_first() =~= cur + s);
    }
}

/// Total number of words of a list of pieces.
pub open spec fn sum_words(parts: Seq<Seq<char>>) -> nat
    decreases parts.len(),
{
    if parts.len() == 0 {
        0
    } else {
        sum_words(parts.drop_last()) + words(parts.last()).len()
    }
}

/// Pieces joined by spaces have as many words as the pieces together.
pub proof fn lemma_words_of_space_join(parts: Seq<Seq<char>>)
    ensures
        words(join(parts, seq![' '])).len() == sum_words(parts),
    decreases parts.len(),
{
    if parts.len() == 0 {
        assert(words(join(parts, seq![' '])) =~= Seq::<Seq<char>>::empty());
    } else if parts.len() == 1 {
        assert(parts.drop_last().len() == 0);
        assert(sum_words(parts.drop_last()) == 0);
        assert(parts.last() == parts[0]);
    } else {
        lemma_words_of_space_join(parts.drop_last());
        lemma_words_space_join(join(parts.drop_last(), seq![' ']), parts.last(), seq![]);
        assert(join(parts, seq![' ']) == join(parts.drop_last(), seq![' ']) + seq![' ']
            + parts.last());
    }
}


/// Position of the first `c` in `s` (`str::find` with a character).
pub open spec fn find_char(s: Seq<char>, c: char) -> Option<int>
    decreases s.len(),
{
    if s.len() == 0 {
        None
    } else if s[0] == c {
        Some(0)
    } else {
        match find_char(s.drop_first(), c) {
            Some(k) => Some(k + 1),
            None => None,
        }
    }
}

/// `find_char` finds the first `c` after a stretch without one.
pub proof fn lemma_find_char(s: Seq<char>, c: char, i: int)
    requires
        0 <= i <= s.len(),
        forall|j: int| 0 <= j < i ==> s[j] != c,
    ensures
        i < s.len() && s[i] == c ==> find_char(s, c) == Some(i),
        i == s.len() ==> find_char(s, c) is None,
    decreases i,
{
    if i > 0 {
        assert forall|j: int| 0 <= j < i - 1 implies s.drop_first()[j] != c by {
            assert(s.drop_first()[j] == s[j + 1]);
        }
        lemma_find_char(s.drop_first(), c, i - 1);
    }
}

/// Position of the first `c` in `s`.
pub fn position_of(s: &[char], c: char) -> (r: Option<usize>)
    ensures
        match r {
            Some(i) => i < s.len() && find_char(s@, c) == Some(i as int),
            None => find_char(s@, c) is None,
        },
{
    let mut i: usize = 0;
    while i < s.len()
        invariant
            i <= s.len(),
            forall|j: int| 0 <= j < i ==> s@[j] != c,
        decreases s.len() - i,
    {
        if s[i] == c {
            proof {
                lemma_find_char(s@, c, i as int);
            }
            return Some(i);
        }
        i = i + 1;
    }
    proof {
        lemma_find_char(s@, c, i as int);
    }
    None
}

/// `str::split_once(c)`: the text before and after the first `c`.
pub open spec fn split_once(s: Seq<char>, c: char) -> Option<(Seq<char>, Seq<char>)> {
    match find_char(s, c) {
        Some(i) => Some((s.subrange(0, i), s.subrange(i + 1, s.len() as int))),
        None => None,
    }
}

/// `s` without leading characters of `set`.
pub open spec fn trim_set_start(s: Seq<char>, set: Seq<char>) -> Seq<char>
    decreases s.len(),
{
    if s.len() > 0 && set.contains(s[0]) {
        trim_set_start(s.drop_first(), set)
    } else {
        s
    }
}

/// `s` without trailing characters of `set`.
pub open spec fn trim_set_end(s: Seq<char>, set: Seq<char>) -> Seq<char>
    decreases s.len(),
{
    if s.len() > 0 && set.contains(s.last()) {
        trim_set_end(s.drop_last(), set)
    } else {
        s
    }
}

/// `str::trim_matches` with a set of characters.
pub open spec fn trim_set(s: Seq<char>, set: Seq<char>) -> Seq<char> {
    trim_set_end(trim_set_start(s, set), set)
}

/// Whether `c` is one of `set`.
pub fn in_set(c: char, set: &[char]) -> (r: bool)
    ensures
        r == set@.contains(c),
{
    let mut k: usize = 0;
    while k < set.len()
        invariant
            k <= set.len(),
            forall|j: int| 0 <= j < k ==> set@[j] != c,
        decreases set.len() - k,
    {
        if set[k] == c {
            return true;
        }
        k = k + 1;
    }
    false
}

/// `str::trim_matches` with a set of characters, copied.
pub fn trim_set_vec(s: &[char], set: &[char]) -> (r: Vec<char>)
    ensures
        r@ == trim_set(s@, set@),
{
    let mut i: usize = 0;
    assert(s@.subrange(0, s.len() as int) =~= s@);
    while i < s.len() && in_set(s[i], set)
        invariant
            i <= s.len(),
            trim_set_start(s@, set@) == trim_set_start(s@.subrange(i as int, s.len() as int), set@),
        decreases s.len() - i,
    {
        assert(s@.subrange(i as int, s.len() as int).drop_first() =~= s@.subrange(
            i + 1,
            s.len() as int,
        ));
        i = i + 1;
    }
    let mut j: usize = s.len();
    let ghost t = s@.subrange(i as int, s.len() as int);
    assert(t.subrange(0, t.len() as int) =~= t);
    while j > i && in_set(s[j - 1], set)
        invariant
            i <= j <= s.len(),
            t == s@.subrange(i as int, s.len() as int),
            trim_set_end(t, set@) == trim_set_end(t.subrange(0, j - i), set@),
        decreases j,
    {
        assert(t.subrange(0, j - i).drop_last() =~= t.subrange(0, j - 1 - i));
        j = j - 1;
    }
    assert(t.subrange(0, j - i) =~= s@.subrange(i as int, j as int));
    slice_vec(s, i, j)
}


/// `p` occurs in `s` at `i` once `s` is ASCII-lower-cased.
pub open spec fn occurs_ci_at(s: Seq<char>, p: Seq<char>, i: int) -> bool {
    0 <= i && i + p.len() <= s.len() && ascii_lower_seq(s.subrange(i, i + p.len())) == p
}

/// Whether `p` occurs in `s` at `i`, ASCII case ignored in `s`.
pub fn matches_ci_at(s: &[char], p: &[char], i: usize) -> (r: bool)
    ensures
        r == occurs_ci_at(s@, p@, i as int),
{
    if i > s.len() || p.len() > s.len() - i {
        return false;
    }
    let mut k: usize = 0;
    while k < p.len()
        invariant
            i + p.len() <= s.len(),
            k <= p.len(),
            forall|j: int| 0 <= j < k ==> ascii_lower(s@[i + j]) == p@[j],
        decreases p.len() - k,
    {
        if ascii_lower_char(s[i + k]) != p[k] {
            assert(ascii_lower_seq(s@.subrange(i as int, i + p.len()))[k as int] != p@[k as int]);
            return false;
        }
        k = k + 1;
    }
    assert(ascii_lower_seq(s@.subrange(i as int, i + p.len())) =~= p@);
    true
}

/// First position at or after `from` where `p` occurs in `s`, ASCII case
/// ignored in `s`.
pub open spec fn find_ci_from(s: Seq<char>, p: Seq<char>, from: int) -> Option<int>
    decreases s.len() - from,
{
    if from < 0 || from >= s.len() {
        None
    } else if occurs_ci_at(s, p, from) {
        Some(from)
    } else {
        find_ci_from(s, p, from + 1)
    }
}

/// First position at or after `from` where `p` occurs in `s`, ASCII case
/// ignored in `s`.
pub fn find_ci(s: &[char], p: &[char], from: usize) -> (r: Option<usize>)
    ensures
        match r {
            Some(j) => find_ci_from(s@, p@, from as int) == Some(j as int) && from <= j && j
                + p.len() <= s.len(),
            None => find_ci_from(s@, p@, from as int) is None,
        },
{
    let mut i = from;
    while i < s.len()
        invariant
            from <= i,
            find_ci_from(s@, p@, from as int) == find_ci_from(s@, p@, i as int),
        decreases s.len() - i,
    {
        if matches_ci_at(s, p, i) {
            return Some(i);
        }
        i = i + 1;
    }
    None
}

/// First position at or after `from` holding `c`.
pub open spec fn find_char_from(s: Seq<char>, c: char, from: int) -> Option<int>
    decreases s.len() - from,
{
    if from < 0 || from >= s.len() {
        None
    } else if s[from] == c {
        Some(from)
    } else {
        find_char_from(s, c, from + 1)
    }
}

/// First position at or after `from` holding `c`.
pub fn find_char_at_or_after(s: &[char], c: char, from: usize) -> (r: Option<usize>)
    ensures
        match r {
            Some(j) => find_char_from(s@, c, from as int) == Some(j as int) && from <= j < s.len(),
            None => find_char_from(s@, c, from as int) is None,
        },
{
    let mut i = from;
    while i < s.len()
        invariant
            from <= i,
            find_char_from(s@, c, from as int) == find_char_from(s@, c, i as int),
        decreases s.len() - i,
    {
        if s[i] == c {
            return Some(i);
        }
        i = i + 1;
    }
    None
}

/// `s` from `i` on with each occurrence of `p`, scanned left to right and
/// without overlap, replaced by `r`.
pub open spec fn replace_from(s: Seq<char>, p: Seq<char>, r: Seq<char>, i: int) -> Seq<char>
    decreases s.len() - i,
{
    if i < 0 || i >= s.len() {
        seq![]
    } else if p.len() > 0 && occurs_at(s, p, i) {
        r + replace_from(s, p, r, i + p.len())
    } else {
        seq![s[i]] + replace_from(s, p, r, i + 1)
    }
}

/// `str::replace(p, r)` for a non-empty pattern.
pub open spec fn replace_all(s: Seq<char>, p: Seq<char>, r: Seq<char>) -> Seq<char> {
    replace_from(s, p, r, 0)
}

/// `str::replace`, on characters.
pub fn replace_chars(s: &[char], p: &[char], r: &[char]) -> (out: Vec<char>)
    ensures
        out@ == replace_all(s@, p@, r@),
{
    let mut out: Vec<char> = Vec::new();
    let mut i: usize = 0;
    while i < s.len()
        invariant
            i <= s.len(),
            replace_all(s@, p@, r@) == out@ + replace_from(s@, p@, r@, i as int),
        decreases s.len() - i,
    {
        let ghost before = out@;
        if p.len() > 0 && matches_at(s, p, i) {
            push_all(&mut out, r);
            assert(before + (r@ + replace_from(s@, p@, r@, i + p.len())) =~= out@ + replace_from(
                s@,
                p@,
                r@,
                i + p.len(),
            ));
            i = i + p.len();
        } else {
            out.push(s[i]);
            assert(before + (seq![s@[i as int]] + replace_from(s@, p@, r@, i + 1)) =~= out@
                + replace_from(s@, p@, r@, i + 1));
            i = i + 1;
        }
    }
    assert(out@ + Seq::<char>::empty() =~= out@);
    out
}


/// `str::trim_end_matches` with a set of characters, copied.
pub fn trim_set_end_vec(s: &[char], set: &[char]) -> (r: Vec<char>)
    ensures
        r@ == trim_set_end(s@, set@),
{
    let mut j: usize = s.len();
    assert(s@.subrange(0, s.len() as int) =~= s@);
    while j > 0 && in_set(s[j - 1], set)
        invariant
            j <= s.len(),
            trim_set_end(s@, set@) == trim_set_end(s@.subrange(0, j as int), set@),
        decreases j,
    {
        assert(s@.subrange(0, j as int).drop_last() =~= s@.subrange(0, j - 1));
        j = j - 1;
    }
    slice_vec(s, 0, j)
}


/// The first `n` characters of `s` (all of `s` when it is shorter).
pub open spec fn take_chars(s: Seq<char>, n: int) -> Seq<char> {
    if n < s.len() {
        s.subrange(0, n)
    } else {
        s
    }
}

/// The first `n` characters of `s`, as a `String`.
pub fn head_string(s: &str, n: usize) -> (r: String)
    ensures
        r@ == take_chars(s@, n as int),
{
    let c = chars_of(s);
    if n < c.len() {
        let h = slice_vec(c.as_slice(), 0, n);
        string_of(h.as_slice())
    } else {
        s.to_string()
    }
}


/// `a` followed by `b`.
pub fn concat(a: &str, b: &str) -> (r: String)
    ensures
        r@ == a@ + b@,
{
    let mut v = chars_of(a);
    let w = chars_of(b);
    push_all(&mut v, w.as_slice());
    string_of(v.as_slice())
}

} // verus!
