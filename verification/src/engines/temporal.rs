//! SemanticEngine (temporal cortex): concept extraction from text.
use vstd::prelude::*;
use crate::text::{
    alphanumeric, chars_of, is_alphanumeric, is_ascii_lower, is_ascii_upper, lowercase,
    split_whitespace, string_of, string_views, to_lowercase, views, words,
};
use crate::json::{field, field_spec, lemma_strings_in_items, set_member, string_items, strings_in, JsonValue};

verus! {

/// Characters that may continue a token once begun: `[a-z0-9_-]`.
pub open spec fn is_token_cont(c: char) -> bool {
    ('a' <= c && c <= 'z') || ('0' <= c && c <= '9') || c == '_' || c == '-'
}

/// Tokens of `s` matching `[a-z][a-z0-9_-]*` as maximal runs, given the token
/// `cur` already begun before `s` (empty when none is).
pub open spec fn tokens_from(s: Seq<char>, cur: Seq<char>) -> Seq<Seq<char>>
    decreases s.len(),
{
    if s.len() == 0 {
        if cur.len() > 0 {
            seq![cur]
        } else {
            seq![]
        }
    } else if cur.len() > 0 {
        if is_token_cont(s[0]) {
            tokens_from(s.drop_first(), cur.push(s[0]))
        } else {
            seq![cur] + tokens_from(s.drop_first(), seq![])
        }
    } else if is_ascii_lower(s[0]) {
        tokens_from(s.drop_first(), seq![s[0]])
    } else {
        tokens_from(s.drop_first(), seq![])
    }
}

/// The tokens of lowercase text.
pub open spec fn tokens(s: Seq<char>) -> Seq<Seq<char>> {
    tokens_from(s, seq![])
}


/// Once a token has begun, a run of `[a-z0-9_-]` characters continues it
/// to the end of the text.
proof fn lemma_run_continues(rest: Seq<char>, cur: Seq<char>)
    requires
        cur.len() > 0,
        forall|i: int|
            0 <= i < rest.len() ==> ('a' <= #[trigger] rest[i] && rest[i] <= 'z') || ('0' <= rest[i]
                && rest[i] <= '9') || rest[i] == '_' || rest[i] == '-',
    ensures
        tokens_from(rest, cur) == seq![cur + rest],
    decreases rest.len(),
{
    if rest.len() == 0 {
        assert(cur + rest =~= cur);
    } else {
        assert(rest[0] == rest[0]);
        let r2 = rest.drop_first();
        assert forall|i: int| 0 <= i < r2.len() implies ('a' <= #[trigger] r2[i] && r2[i] <= 'z') || (
        '0' <= r2[i] && r2[i] <= '9') || r2[i] == '_' || r2[i] == '-' by {
            assert(r2[i] == rest[i + 1]);
        }
        lemma_run_continues(r2, cur.push(rest[0]));
        assert(cur.push(rest[0]) + r2 =~= cur + rest);
    }
}

/// A word matching `[a-z][a-z0-9_-]*` is a single token, whole: a hyphen,
/// digit or underscore inside a lowercase word continues it, so a
/// hyphenated word such as `rate-limiter` is one concept.
pub proof fn law_word_is_one_token(w: Seq<char>)
    requires
        w.len() > 0,
        'a' <= w[0] && w[0] <= 'z',
        forall|i: int|
            0 <= i < w.len() ==> ('a' <= #[trigger] w[i] && w[i] <= 'z') || ('0' <= w[i] && w[i]
                <= '9') || w[i] == '_' || w[i] == '-',
    ensures
        tokens(w) == seq![w],
{
    let r = w.drop_first();
    assert forall|i: int| 0 <= i < r.len() implies ('a' <= #[trigger] r[i] && r[i] <= 'z') || ('0'
        <= r[i] && r[i] <= '9') || r[i] == '_' || r[i] == '-' by {
        assert(r[i] == w[i + 1]);
    }
    lemma_run_continues(r, seq![w[0]]);
    assert(seq![w[0]] + r =~= w);
}

/// Tokens are separated by any character outside `[a-z0-9_-]`: two words
/// with such a character between them are two tokens.
pub proof fn law_separated_words_are_two_tokens(a: Seq<char>, sep: char, b: Seq<char>)
    requires
        a.len() > 0,
        'a' <= a[0] && a[0] <= 'z',
        forall|i: int|
            0 <= i < a.len() ==> ('a' <= #[trigger] a[i] && a[i] <= 'z') || ('0' <= a[i] && a[i]
                <= '9') || a[i] == '_' || a[i] == '-',
        b.len() > 0,
        'a' <= b[0] && b[0] <= 'z',
        forall|i: int|
            0 <= i < b.len() ==> ('a' <= #[trigger] b[i] && b[i] <= 'z') || ('0' <= b[i] && b[i]
                <= '9') || b[i] == '_' || b[i] == '-',
        !(('a' <= sep && sep <= 'z') || ('0' <= sep && sep <= '9') || sep == '_' || sep == '-'),
    ensures
        tokens(a + seq![sep] + b) == seq![a, b],
{
    let s = a + seq![sep] + b;
    lemma_split_run(a.drop_first(), seq![a[0]], sep, b);
    assert(s.drop_first() =~= a.drop_first() + seq![sep] + b);
    assert(seq![a[0]] + a.drop_first() =~= a);
    law_word_is_one_token(b);
}

/// A run of token characters after a begun token, then a separator, then
/// `b`: the token ends at the separator and `b` is tokenized afresh.
proof fn lemma_split_run(rest: Seq<char>, cur: Seq<char>, sep: char, b: Seq<char>)
    requires
        cur.len() > 0,
        forall|i: int|
            0 <= i < rest.len() ==> ('a' <= #[trigger] rest[i] && rest[i] <= 'z') || ('0' <= rest[i]
                && rest[i] <= '9') || rest[i] == '_' || rest[i] == '-',
        !(('a' <= sep && sep <= 'z') || ('0' <= sep && sep <= '9') || sep == '_' || sep == '-'),
    ensures
        tokens_from(rest + seq![sep] + b, cur) == seq![cur + rest] + tokens_from(b, seq![]),
    decreases rest.len(),
{
    let s = rest + seq![sep] + b;
    if rest.len() == 0 {
        assert(s[0] == sep);
        assert(s.drop_first() =~= b);
        assert(cur + rest =~= cur);
    } else {
        let r2 = rest.drop_first();
        assert(s[0] == rest[0]);
        assert(s.drop_first() =~= r2 + seq![sep] + b);
        assert forall|i: int| 0 <= i < r2.len() implies ('a' <= #[trigger] r2[i] && r2[i] <= 'z') || (
        '0' <= r2[i] && r2[i] <= '9') || r2[i] == '_' || r2[i] == '-' by {
            assert(r2[i] == rest[i + 1]);
        }
        lemma_split_run(r2, cur.push(rest[0]), sep, b);
        assert(cur.push(rest[0]) + r2 =~= cur + rest);
    }
}


/// Tokenize lowercase text into word tokens matching `[a-z][a-z0-9_-]+`
/// boundaries (maximal runs; the length filter is the caller's).
pub fn tokenize_words(lower: &[char]) -> (r: Vec<Vec<char>>)
    ensures
        views(r@) == tokens(lower@),
{
    let mut out: Vec<Vec<char>> = Vec::new();
    let mut cur: Vec<char> = Vec::new();
    let mut i: usize = 0;
    assert(lower@.subrange(0, lower.len() as int) =~= lower@);
    while i < lower.len()
        invariant
            i <= lower.len(),
            tokens(lower@) == views(out@) + tokens_from(
                lower@.subrange(i as int, lower.len() as int),
                cur@,
            ),
        decreases lower.len() - i,
    {
        let ghost rest = lower@.subrange(i as int, lower.len() as int);
        assert(rest.drop_first() =~= lower@.subrange(i + 1, lower.len() as int));
        let c = lower[i];
        if cur.len() > 0 {
            if ('a' <= c && c <= 'z') || ('0' <= c && c <= '9') || c == '_' || c == '-' {
                cur.push(c);
            } else {
                let w = cur;
                cur = Vec::new();
                proof {
                    assert(views(out@.push(w)) =~= views(out@) + seq![w@]);
                    assert(cur@ =~= Seq::<char>::empty());
                }
                out.push(w);
            }
        } else if 'a' <= c && c <= 'z' {
            cur.push(c);
            assert(cur@ =~= seq![c]);
        } else {
            assert(cur@ =~= Seq::<char>::empty());
        }
        i = i + 1;
    }
    assert(lower@.subrange(i as int, lower.len() as int) =~= Seq::<char>::empty());
    if cur.len() > 0 {
        proof {
            assert(views(out@.push(cur)) =~= views(out@) + seq![cur@]);
        }
        out.push(cur);
    } else {
        assert(views(out@) + seq![] =~= views(out@));
    }
    out
}

/// `s` without its trailing non-alphanumeric characters
/// (`trim_end_matches(|c| !c.is_alphanumeric())`).
pub open spec fn strip_punct_spec(s: Seq<char>) -> Seq<char>
    decreases s.len(),
{
    if s.len() > 0 && !alphanumeric(s.last()) {
        strip_punct_spec(s.drop_last())
    } else {
        s
    }
}

/// Strip trailing non-alphanumeric characters (punctuation after words).
pub fn strip_punctuation(s: &[char]) -> (r: Vec<char>)
    ensures
        r@ == strip_punct_spec(s@),
{
    let mut j = s.len();
    assert(s@.subrange(0, j as int) =~= s@);
    while j > 0 && !is_alphanumeric(s[j - 1])
        invariant
            j <= s.len(),
            strip_punct_spec(s@) == strip_punct_spec(s@.subrange(0, j as int)),
        decreases j,
    {
        assert(s@.subrange(0, j as int).drop_last() =~= s@.subrange(0, j - 1));
        j = j - 1;
    }
    crate::text::slice_vec(s, 0, j)
}

/// An ASCII capital followed only by ASCII lowercase letters.
pub open spec fn is_title_spec(s: Seq<char>) -> bool {
    &&& s.len() > 0
    &&& is_ascii_upper(s[0])
    &&& forall|i: int| 1 <= i < s.len() ==> is_ascii_lower(#[trigger] s[i])
}

/// True if the word starts with an uppercase letter followed by lowercase letters.
pub fn is_title_word(s: &[char]) -> (r: bool)
    ensures
        r == is_title_spec(s@),
{
    if s.len() == 0 {
        return false;
    }
    if !('A' <= s[0] && s[0] <= 'Z') {
        return false;
    }
    let mut i: usize = 1;
    while i < s.len()
        invariant
            1 <= i <= s.len(),
            forall|k: int| 1 <= k < i ==> is_ascii_lower(#[trigger] s@[k]),
        decreases s.len() - i,
    {
        if !('a' <= s[i] && s[i] <= 'z') {
            return false;
        }
        i = i + 1;
    }
    true
}

/// The stop-word list.
pub open spec fn stop_words() -> Seq<Seq<char>> {
    seq![
        "the"@, "a"@, "an"@, "is"@, "are"@, "was"@, "were"@, "be"@, "been"@, "being"@,
        "have"@, "has"@, "had"@, "do"@, "does"@, "did"@, "will"@, "would"@, "could"@,
        "should"@, "may"@, "might"@, "shall"@, "can"@, "need"@, "dare"@, "ought"@,
        "used"@, "to"@, "of"@, "in"@, "for"@, "on"@, "with"@, "at"@, "by"@, "from"@,
        "as"@, "into"@, "through"@, "during"@, "before"@, "after"@, "above"@,
        "below"@, "between"@, "out"@, "off"@, "over"@, "under"@, "again"@, "further"@,
        "then"@, "once"@, "here"@, "there"@, "when"@, "where"@, "why"@, "how"@, "all"@,
        "each"@, "every"@, "both"@, "few"@, "more"@, "most"@, "other"@, "some"@,
        "such"@, "no"@, "nor"@, "not"@, "only"@, "own"@, "same"@, "so"@, "than"@,
        "too"@, "very"@, "just"@, "because"@, "but"@, "and"@, "or"@, "if"@, "while"@,
        "that"@, "this"@, "these"@, "those"@, "it"@, "its"@, "i"@, "you"@, "he"@,
        "she"@, "we"@, "they"@, "me"@, "him"@, "her"@, "us"@, "them"@, "my"@, "your"@,
        "his"@, "our"@, "their"@, "what"@, "which"@, "who"@, "whom"@,
    ]
}

/// Whether `w` is a stop word.
pub fn is_stop_word(w: &[char]) -> (r: bool)
    ensures
        r == stop_words().contains(w@),
{
    let list = vec![
        "the", "a", "an", "is", "are", "was", "were", "be", "been", "being",
        "have", "has", "had", "do", "does", "did", "will", "would", "could",
        "should", "may", "might", "shall", "can", "need", "dare", "ought",
        "used", "to", "of", "in", "for", "on", "with", "at", "by", "from",
        "as", "into", "through", "during", "before", "after", "above",
        "below", "between", "out", "off", "over", "under", "again", "further",
        "then", "once", "here", "there", "when", "where", "why", "how", "all",
        "each", "every", "both", "few", "more", "most", "other", "some",
        "such", "no", "nor", "not", "only", "own", "same", "so", "than",
        "too", "very", "just", "because", "but", "and", "or", "if", "while",
        "that", "this", "these", "those", "it", "its", "i", "you", "he",
        "she", "we", "they", "me", "him", "her", "us", "them", "my", "your",
        "his", "our", "their", "what", "which", "who", "whom",
    ];
    assert(crate::text::str_views(list@) =~= stop_words());
    let mut k: usize = 0;
    while k < list.len()
        invariant
            k <= list.len(),
            crate::text::str_views(list@) == stop_words(),
            forall|j: int| 0 <= j < k ==> stop_words()[j] != w@,
        decreases list.len() - k,
    {
        let p = chars_of(list[k]);
        if crate::text::seq_equal(p.as_slice(), w) {
            assert(stop_words()[k as int] == w@);
            return true;
        }
        k = k + 1;
    }
    false
}


// ---------------------------------------------------------------------------
// Frequency table
// ---------------------------------------------------------------------------

/// Number of occurrences of `x` in `s`.
pub open spec fn seq_count(s: Seq<Seq<char>>, x: Seq<char>) -> nat
    decreases s.len(),
{
    if s.len() == 0 {
        0
    } else {
        seq_count(s.drop_last(), x) + if s.last() == x {
            1nat
        } else {
            0nat
        }
    }
}

/// The characters and weight of each entry of a frequency table.
pub open spec fn table_view(t: Seq<(Vec<char>, u128)>) -> Seq<(Seq<char>, nat)> {
    t.map_values(|e: (Vec<char>, u128)| (e.0@, e.1 as nat))
}

/// Total weight recorded for `x` in a table.
pub open spec fn table_weight(t: Seq<(Seq<char>, nat)>, x: Seq<char>) -> nat
    decreases t.len(),
{
    if t.len() == 0 {
        0
    } else {
        table_weight(t.drop_last(), x) + if t.last().0 == x {
            t.last().1
        } else {
            0nat
        }
    }
}

/// No key occurs twice in a table.
pub open spec fn keys_distinct(t: Seq<(Seq<char>, nat)>) -> bool {
    forall|i: int, j: int| 0 <= i < j < t.len() ==> t[i].0 != t[j].0
}

/// Every entry of a table has positive weight.
pub open spec fn weights_positive(t: Seq<(Seq<char>, nat)>) -> bool {
    forall|i: int| 0 <= i < t.len() ==> t[i].1 > 0
}

proof fn lemma_table_weight_push(t: Seq<(Seq<char>, nat)>, e: (Seq<char>, nat), x: Seq<char>)
    ensures
        table_weight(t.push(e), x) == table_weight(t, x) + if e.0 == x {
            e.1
        } else {
            0nat
        },
{
    assert(t.push(e).drop_last() =~= t);
}

proof fn lemma_table_weight_update(t: Seq<(Seq<char>, nat)>, i: int, w: nat, x: Seq<char>)
    requires
        0 <= i < t.len(),
    ensures
        table_weight(t.update(i, (t[i].0, t[i].1 + w)), x) == table_weight(t, x) + if t[i].0
            == x {
            w
        } else {
            0nat
        },
    decreases t.len(),
{
    let u = t.update(i, (t[i].0, t[i].1 + w));
    if i == t.len() - 1 {
        assert(u.drop_last() =~= t.drop_last());
    } else {
        assert(u.drop_last() =~= t.drop_last().update(i, (t[i].0, t[i].1 + w)));
        lemma_table_weight_update(t.drop_last(), i, w, x);
    }
}

proof fn lemma_table_weight_at(t: Seq<(Seq<char>, nat)>, i: int)
    requires
        0 <= i < t.len(),
        keys_distinct(t),
    ensures
        table_weight(t, t[i].0) == t[i].1,
    decreases t.len(),
{
    if i == t.len() - 1 {
        lemma_table_weight_absent(t.drop_last(), t[i].0);
    } else {
        lemma_table_weight_at(t.drop_last(), i);
    }
}

proof fn lemma_table_weight_absent(t: Seq<(Seq<char>, nat)>, x: Seq<char>)
    requires
        forall|i: int| 0 <= i < t.len() ==> t[i].0 != x,
    ensures
        table_weight(t, x) == 0,
    decreases t.len(),
{
    if t.len() > 0 {
        lemma_table_weight_absent(t.drop_last(), x);
    }
}

/// Add weight `w` to key `x` of a table: the entry is updated in place, or
/// appended when the key is new.
pub fn table_add(t: &mut Vec<(Vec<char>, u128)>, x: Vec<char>, w: u128)
    requires
        keys_distinct(table_view(old(t)@)),
        weights_positive(table_view(old(t)@)),
        w > 0,
        forall|i: int| 0 <= i < old(t)@.len() ==> old(t)@[i].1 + w <= u128::MAX,
    ensures
        keys_distinct(table_view(final(t)@)),
        weights_positive(table_view(final(t)@)),
        forall|y: Seq<char>|
            table_weight(table_view(final(t)@), y) == table_weight(table_view(old(t)@), y) + if y
                == x@ {
                w as nat
            } else {
                0nat
            },
        forall|y: Seq<char>|
            table_weight(table_view(old(t)@), y) > 0 ==> #[trigger] table_weight(
                table_view(final(t)@),
                y,
            ) > 0,
        final(t)@.len() <= old(t)@.len() + 1,
        forall|i: int|
            0 <= i < final(t)@.len() ==> final(t)@[i].1 <= (if i < old(t)@.len() {
                old(t)@[i].1
            } else {
                0
            }) + w,
{
    let mut i: usize = 0;
    while i < t.len()
        invariant
            i <= t.len(),
            t@ == old(t)@,
            keys_distinct(table_view(old(t)@)),
            weights_positive(table_view(old(t)@)),
            w > 0,
            forall|j: int| 0 <= j < old(t)@.len() ==> old(t)@[j].1 + w <= u128::MAX,
            forall|j: int| 0 <= j < i ==> t@[j].0@ != x@,
        decreases t.len() - i,
    {
        if crate::text::seq_equal(t[i].0.as_slice(), x.as_slice()) {
            let ghost tv = table_view(t@);
            let v = t[i].1;
            let k = t[i].0.clone();
            t.set(i, (k, v + w));
            proof {
                assert(table_view(t@) =~= tv.update(i as int, (tv[i as int].0, tv[i as int].1 + (w as nat))));
                assert(forall|j: int| 0 <= j < t@.len() ==> table_view(t@)[j].0 == tv[j].0);
                assert forall|y: Seq<char>|
                    table_weight(table_view(t@), y) == table_weight(tv, y) + if y == x@ {
                        w as nat
                    } else {
                        0nat
                    } by {
                    lemma_table_weight_update(tv, i as int, w as nat, y);
                }
            }
            return;
        }
        i = i + 1;
    }
    let ghost tv = table_view(t@);
    t.push((x, w));
    proof {
        assert(table_view(t@) =~= tv.push((x@, w as nat)));
        assert(forall|j: int| 0 <= j < tv.len() ==> tv[j].0 != x@);
        assert forall|y: Seq<char>|
            table_weight(table_view(t@), y) == table_weight(tv, y) + if y == x@ {
                w as nat
            } else {
                0nat
            } by {
            lemma_table_weight_push(tv, (x@, w as nat), y);
        }
    }
}


// ---------------------------------------------------------------------------
// Ranking
// ---------------------------------------------------------------------------

/// Lexicographic order on character sequences (the order of `String`'s `Ord`,
/// since UTF-8 preserves code point order).
pub open spec fn lex_lt(a: Seq<char>, b: Seq<char>) -> bool
    decreases a.len(),
{
    if a.len() == 0 {
        b.len() > 0
    } else if b.len() == 0 {
        false
    } else if a[0] < b[0] {
        true
    } else if a[0] > b[0] {
        false
    } else {
        lex_lt(a.drop_first(), b.drop_first())
    }
}

pub proof fn lemma_lex_total(a: Seq<char>, b: Seq<char>)
    requires
        a != b,
    ensures
        lex_lt(a, b) || lex_lt(b, a),
    decreases a.len(),
{
    if a.len() > 0 && b.len() > 0 && a[0] == b[0] {
        if a.drop_first() == b.drop_first() {
            assert(a =~= seq![a[0]] + a.drop_first());
            assert(b =~= seq![b[0]] + b.drop_first());
        }
        lemma_lex_total(a.drop_first(), b.drop_first());
    } else if a.len() == 0 && b.len() == 0 {
        assert(a =~= b);
    }
}

pub proof fn lemma_lex_trans(a: Seq<char>, b: Seq<char>, c: Seq<char>)
    requires
        lex_lt(a, b),
        lex_lt(b, c),
    ensures
        lex_lt(a, c),
    decreases a.len(),
{
    if a.len() > 0 && b.len() > 0 && c.len() > 0 && a[0] == b[0] && b[0] == c[0] {
        lemma_lex_trans(a.drop_first(), b.drop_first(), c.drop_first());
    }
}

/// `a < b` in lexicographic order.
pub fn lex_less(a: &[char], b: &[char]) -> (r: bool)
    ensures
        r == lex_lt(a@, b@),
{
    let mut i: usize = 0;
    proof {
        assert(a@.subrange(0, a.len() as int) =~= a@);
        assert(b@.subrange(0, b.len() as int) =~= b@);
    }
    while i < a.len() && i < b.len() && a[i] == b[i]
        invariant
            i <= a.len(),
            i <= b.len(),
            lex_lt(a@, b@) == lex_lt(a@.subrange(i as int, a.len() as int), b@.subrange(
                i as int,
                b.len() as int,
            )),
        decreases a.len() - i,
    {
        assert(a@.subrange(i as int, a.len() as int).drop_first() =~= a@.subrange(
            i + 1,
            a.len() as int,
        ));
        assert(b@.subrange(i as int, b.len() as int).drop_first() =~= b@.subrange(
            i + 1,
            b.len() as int,
        ));
        i = i + 1;
    }
    proof {
        assert(a@.subrange(0, a.len() as int) =~= a@);
        assert(b@.subrange(0, b.len() as int) =~= b@);
    }
    if i == a.len() {
        i < b.len()
    } else if i == b.len() {
        false
    } else {
        a[i] < b[i]
    }
}

/// `a` ranks before `b`: higher weight first, ties in lexicographic order.
pub open spec fn ranks_before(a: (Seq<char>, nat), b: (Seq<char>, nat)) -> bool {
    a.1 > b.1 || (a.1 == b.1 && lex_lt(a.0, b.0))
}

pub proof fn lemma_ranks_total(a: (Seq<char>, nat), b: (Seq<char>, nat))
    requires
        a.0 != b.0,
    ensures
        ranks_before(a, b) || ranks_before(b, a),
{
    lemma_lex_total(a.0, b.0);
}

pub proof fn lemma_ranks_trans(a: (Seq<char>, nat), b: (Seq<char>, nat), c: (Seq<char>, nat))
    requires
        ranks_before(a, b),
        ranks_before(b, c),
    ensures
        ranks_before(a, c),
{
    if a.1 == b.1 && b.1 == c.1 {
        lemma_lex_trans(a.0, b.0, c.0);
    }
}

/// `idx` selects the leading entries of `t` in ranking order: distinct
/// indices, ranked in order, each ranked before every entry left out.
pub open spec fn is_top_selection(t: Seq<(Seq<char>, nat)>, idx: Seq<usize>) -> bool {
    &&& forall|j: int| 0 <= j < idx.len() ==> idx[j] < t.len()
    &&& forall|j: int, k: int| 0 <= j < k < idx.len() ==> idx[j] != idx[k]
    &&& forall|j: int, k: int|
        0 <= j < k < idx.len() ==> ranks_before(t[idx[j] as int], t[idx[k] as int])
    &&& forall|j: int, u: int|
        0 <= j < idx.len() && 0 <= u < t.len() && !idx.contains(u as usize) ==> ranks_before(
            t[idx[j] as int],
            t[u],
        )
}

/// Indices of the `max` highest-ranked entries of a table with distinct keys,
/// in ranking order (all of them when there are fewer).
pub fn top_entries(t: &Vec<(Vec<char>, u128)>, max: usize) -> (idx: Vec<usize>)
    requires
        keys_distinct(table_view(t@)),
    ensures
        is_top_selection(table_view(t@), idx@),
        idx@.len() == if max < t@.len() {
            max as nat
        } else {
            t@.len()
        },
{
    let ghost tv = table_view(t@);
    let n = t.len();
    let mut taken: Vec<bool> = Vec::new();
    let mut i: usize = 0;
    while i < n
        invariant
            i <= n,
            taken@.len() == i,
            forall|k: int| 0 <= k < i ==> !taken@[k],
        decreases n - i,
    {
        taken.push(false);
        i = i + 1;
    }
    let mut idx: Vec<usize> = Vec::new();
    while idx.len() < max && idx.len() < n
        invariant
            tv == table_view(t@),
            n == t@.len(),
            keys_distinct(tv),
            taken@.len() == n,
            forall|u: int| 0 <= u < n ==> (taken@[u] <==> idx@.contains(u as usize)),
            is_top_selection(tv, idx@),
            idx@.len() <= n,
            idx@.len() <= max,
        decreases n - idx.len(),
    {
        // the untaken entries exist: idx holds fewer than n distinct indices
        proof {
            lemma_untaken_exists(idx@, n);
            let u = choose|u: usize| u < n && !idx@.contains(u);
            assert(!taken@[u as int]);
        }
        let mut best: usize = 0;
        while best < n && taken[best]
            invariant
                best <= n,
                taken@.len() == n,
                forall|u: int| 0 <= u < best ==> taken@[u],
                exists|u: int| 0 <= u < n && !#[trigger] taken@[u],
            decreases n - best,
        {
            best = best + 1;
        }
        let mut k: usize = best + 1;
        while k < n
            invariant
                best < n,
                best < k <= n,
                !taken@[best as int],
                taken@.len() == n,
                tv == table_view(t@),
                n == t@.len(),
                keys_distinct(tv),
                forall|u: int| 0 <= u < k && u != best && !taken@[u] ==> ranks_before(tv[best as int], tv[u]),
            decreases n - k,
        {
            if !taken[k] {
                let better = t[k].1 > t[best].1 || (t[k].1 == t[best].1 && lex_less(
                    t[k].0.as_slice(),
                    t[best].0.as_slice(),
                ));
                proof {
                    assert(tv[k as int] == (t@[k as int].0@, t@[k as int].1 as nat));
                    assert(tv[best as int] == (t@[best as int].0@, t@[best as int].1 as nat));
                }
                if better {
                    proof {
                        assert forall|u: int|
                            0 <= u < k + 1 && u != k && !taken@[u] implies ranks_before(
                            tv[k as int],
                            tv[u],
                        ) by {
                            if u != best {
                                lemma_ranks_trans(tv[k as int], tv[best as int], tv[u]);
                            }
                        }
                    }
                    best = k;
                } else {
                    proof {
                        lemma_ranks_total(tv[best as int], tv[k as int]);
                    }
                }
            }
            k = k + 1;
        }
        proof {
            assert forall|j: int| 0 <= j < idx@.len() implies ranks_before(
                tv[idx@[j] as int],
                tv[best as int],
            ) by {
                assert(!idx@.contains(best));
            }
        }
        let ghost old_idx = idx@;
        let ghost taken_before = taken@;
        idx.push(best);
        taken.set(best, true);
        proof {
            assert forall|u: int| 0 <= u < n implies (taken@[u] <==> idx@.contains(u as usize)) by {
                if u == best {
                    assert(idx@[idx@.len() - 1] == best);
                } else {
                    if old_idx.contains(u as usize) {
                        let j = choose|j: int| 0 <= j < old_idx.len() && old_idx[j] == u as usize;
                        assert(idx@[j] == u as usize);
                    }
                    if idx@.contains(u as usize) {
                        let j = choose|j: int| 0 <= j < idx@.len() && idx@[j] == u as usize;
                        assert(old_idx[j] == u as usize);
                    }
                }
            }
            assert forall|j: int, u: int|
                0 <= j < idx@.len() && 0 <= u < tv.len() && !idx@.contains(
                    u as usize,
                ) implies ranks_before(tv[idx@[j] as int], tv[u]) by {
                assert(!old_idx.contains(u as usize)) by {
                    if old_idx.contains(u as usize) {
                        let jj = choose|jj: int| 0 <= jj < old_idx.len() && old_idx[jj] == u as usize;
                        assert(idx@[jj] == u as usize);
                    }
                }
                if j < old_idx.len() {
                    assert(idx@[j] == old_idx[j]);
                } else {
                    assert(idx@[j] == best);
                    assert(idx@[old_idx.len() as int] == best);
                    assert(u != best as int);
                    assert(!taken_before[u]);
                }
            }
            assert forall|j: int, k2: int| 0 <= j < k2 < idx@.len() implies idx@[j] != idx@[k2] by {
                if k2 == idx@.len() - 1 {
                    assert(old_idx[j] == idx@[j]);
                    assert(old_idx.contains(idx@[j]));
                }
            }
        }
    }
    idx
}

proof fn lemma_untaken_exists(idx: Seq<usize>, n: usize)
    requires
        idx.len() < n,
        forall|j: int| 0 <= j < idx.len() ==> idx[j] < n,
        forall|j: int, k: int| 0 <= j < k < idx.len() ==> idx[j] != idx[k],
    ensures
        exists|u: usize| u < n && !idx.contains(u),
{
    // pigeonhole: the indices set has fewer than n elements
    let s = idx.to_set();
    idx.unique_seq_to_set();
    let full = Set::new(|u: usize| u < n);
    assert(full =~= Set::range(0usize, n).map(|u: usize| u)) by {
        assert forall|u: usize| full.contains(u) <==> Set::range(0usize, n).map(|v: usize| v).contains(u) by {
            if full.contains(u) {
                assert(Set::range(0usize, n).contains(u));
            }
        }
    }
    if forall|u: usize| u < n ==> idx.contains(u) {
        assert(full.subset_of(s));
        vstd::set_lib::lemma_len_subset(full, s);
        lemma_range_len(n);
        assert(false);
    }
}

proof fn lemma_range_len(n: usize)
    ensures
        Set::new(|u: usize| u < n).finite(),
        Set::new(|u: usize| u < n).len() == n,
    decreases n,
{
    if n == 0 {
        assert(Set::new(|u: usize| u < n) =~= Set::empty());
    } else {
        lemma_range_len((n - 1) as usize);
        assert(Set::new(|u: usize| u < n) =~= Set::new(|u: usize| u < (n - 1) as usize).insert(
            (n - 1) as usize,
        ));
    }
}


// ---------------------------------------------------------------------------
// Concept extraction
// ---------------------------------------------------------------------------

/// A token long enough (more than two characters) and not a stop word.
pub open spec fn is_concept_token(w: Seq<char>) -> bool {
    w.len() > 2 && !stop_words().contains(w)
}

/// Weight from single tokens: each qualifying occurrence of `x` among the
/// first `n` tokens counts one.
pub open spec fn unigram_weight(toks: Seq<Seq<char>>, n: nat, x: Seq<char>) -> nat
    decreases n,
{
    if n == 0 {
        0
    } else {
        unigram_weight(toks, (n - 1) as nat, x) + if toks[n - 1] == x && is_concept_token(x) {
            1nat
        } else {
            0nat
        }
    }
}

/// The bigram formed by two consecutive words, when both are title-case
/// after stripping trailing punctuation: their lowercase forms joined by a
/// space.
pub open spec fn bigram_key(a: Seq<char>, b: Seq<char>) -> Option<Seq<char>> {
    let a2 = strip_punct_spec(a);
    let b2 = strip_punct_spec(b);
    if is_title_spec(a2) && is_title_spec(b2) {
        Some(lowercase(a2) + seq![' '] + lowercase(b2))
    } else {
        None
    }
}

/// Weight from bigrams: each window `(ws[i], ws[i + 1])` with `i + 1 < n`
/// whose bigram is `x` counts two.
pub open spec fn bigram_weight(ws: Seq<Seq<char>>, n: nat, x: Seq<char>) -> nat
    decreases n,
{
    if n == 0 {
        0
    } else {
        bigram_weight(ws, (n - 1) as nat, x) + if n < ws.len() && bigram_key(ws[n - 1], ws[n as int])
            == Some(x) {
            2nat
        } else {
            0nat
        }
    }
}

/// The frequency score of concept `x` in `content`: occurrences as a token of
/// the lowercase text, plus twice its occurrences as a title-case bigram.
pub open spec fn concept_weight(content: Seq<char>, x: Seq<char>) -> nat {
    let toks = tokens(lowercase(content));
    let ws = words(content);
    unigram_weight(toks, toks.len(), x) + bigram_weight(ws, ws.len(), x)
}

/// `r` lists the top concepts of `content`, at most `max` of them: each has a
/// positive score, they are ranked by score (descending) then text
/// (ascending), and any concept left out ranks after all of them and was left
/// out only because `max` were already listed.
pub open spec fn is_concept_ranking(content: Seq<char>, max: nat, r: Seq<Seq<char>>) -> bool {
    &&& r.len() <= max
    &&& forall|j: int| 0 <= j < r.len() ==> concept_weight(content, #[trigger] r[j]) > 0
    &&& forall|j: int, k: int|
        0 <= j < k < r.len() ==> ranks_before(
            (r[j], concept_weight(content, r[j])),
            (r[k], concept_weight(content, r[k])),
        )
    &&& forall|x: Seq<char>|
        concept_weight(content, x) > 0 && !r.contains(x) ==> {
            &&& r.len() == max
            &&& forall|j: int|
                0 <= j < r.len() ==> ranks_before(
                    (r[j], concept_weight(content, r[j])),
                    (x, concept_weight(content, x)),
                )
        }
}

proof fn lemma_weight_present(t: Seq<(Seq<char>, nat)>, x: Seq<char>)
    requires
        table_weight(t, x) > 0,
    ensures
        exists|i: int| 0 <= i < t.len() && t[i].0 == x,
    decreases t.len(),
{
    if t.last().0 != x {
        lemma_weight_present(t.drop_last(), x);
        let i = choose|i: int| 0 <= i < t.drop_last().len() && t.drop_last()[i].0 == x;
        assert(t[i].0 == x);
    }
}

proof fn lemma_top_is_concept_ranking(
    content: Seq<char>,
    max: nat,
    tv: Seq<(Seq<char>, nat)>,
    idx: Seq<usize>,
    r: Seq<Seq<char>>,
)
    requires
        tv.len() <= usize::MAX,
        keys_distinct(tv),
        weights_positive(tv),
        forall|x: Seq<char>| table_weight(tv, x) == concept_weight(content, x),
        is_top_selection(tv, idx),
        idx.len() == if max < tv.len() {
            max
        } else {
            tv.len()
        },
        r.len() == idx.len(),
        forall|j: int| 0 <= j < r.len() ==> r[j] == tv[idx[j] as int].0,
    ensures
        is_concept_ranking(content, max, r),
{
    assert forall|j: int| 0 <= j < r.len() implies tv[idx[j] as int].1 == concept_weight(
        content,
        r[j],
    ) by {
        lemma_table_weight_at(tv, idx[j] as int);
    }
    assert forall|x: Seq<char>|
        concept_weight(content, x) > 0 && !r.contains(x) implies {
            &&& r.len() == max
            &&& forall|j: int|
                0 <= j < r.len() ==> ranks_before(
                    (r[j], concept_weight(content, r[j])),
                    (x, concept_weight(content, x)),
                )
        } by {
        lemma_weight_present(tv, x);
        let u = choose|u: int| 0 <= u < tv.len() && tv[u].0 == x;
        lemma_table_weight_at(tv, u);
        if idx.contains(u as usize) {
            let j = choose|j: int| 0 <= j < idx.len() && idx[j] == u as usize;
            assert(r[j] == x);
        }
        if r.len() != max {
            // every entry was selected, so `u` is among them
            assert(idx.len() == tv.len());
            lemma_all_selected(idx, tv.len());
            assert(idx.contains(u as usize));
        }
    }
}

proof fn lemma_all_selected(idx: Seq<usize>, n: nat)
    requires
        n <= usize::MAX,
        idx.len() == n,
        forall|j: int| 0 <= j < idx.len() ==> idx[j] < n,
        forall|j: int, k: int| 0 <= j < k < idx.len() ==> idx[j] != idx[k],
    ensures
        forall|u: usize| u < n ==> idx.contains(u),
{
    idx.unique_seq_to_set();
    let s = idx.to_set();
    assert forall|u: usize| u < n implies idx.contains(u) by {
        if !idx.contains(u) {
            let full = Set::new(|v: usize| v < n);
            assert(full =~= Set::new(|v: usize| v < n as usize));
            assert(s.subset_of(full.remove(u)));
            lemma_range_len(n as usize);
            vstd::set_lib::lemma_len_subset(s, full.remove(u));
            assert(false);
        }
    }
}


/// Entries of a table are bounded by `b`.
pub open spec fn weights_bounded(t: Seq<(Vec<char>, u128)>, b: nat) -> bool {
    forall|i: int| 0 <= i < t.len() ==> t[i].1 <= b
}

/// How many concepts enrichment records.
pub const ENRICH_CONCEPTS: usize = 10;

/// Whether metadata already records concepts: it is an object with a
/// `concepts` member that is not `null`.
pub open spec fn has_concepts(metadata: JsonValue) -> bool {
    match metadata {
        JsonValue::Object(fs) => match field_spec(fs@, "concepts"@) {
            Some(v) => !(v is Null),
            None => false,
        },
        _ => false,
    }
}

/// The members of metadata read as an object; none when it is not one.
pub open spec fn object_members(metadata: JsonValue) -> Seq<(String, JsonValue)> {
    match metadata {
        JsonValue::Object(fs) => fs@,
        _ => Seq::empty(),
    }
}

/// The items of the `concepts` array of metadata, when it has one.
pub open spec fn recorded_concepts(metadata: JsonValue) -> Option<Seq<JsonValue>> {
    match field_spec(object_members(metadata), "concepts"@) {
        Some(JsonValue::Array(a)) => Some(a@),
        _ => None,
    }
}

/// Every item is a string.
pub open spec fn all_strings(items: Seq<JsonValue>) -> bool {
    forall|j: int| 0 <= j < items.len() ==> #[trigger] items[j] is Str
}

/// SemanticEngine — temporal cortex.
pub struct SemanticEngine;

impl Default for SemanticEngine {
    fn default() -> (r: Self)
        ensures
            r == SemanticEngine,
    {
        SemanticEngine::new()
    }
}

impl SemanticEngine {
    pub fn new() -> (r: Self)
        ensures
            r == SemanticEngine,
    {
        SemanticEngine
    }

    /// Extract the top `max_concepts` key concepts of `content`: tokens of the
    /// lowercase text (`[a-z][a-z0-9_-]+`, longer than two characters, not stop
    /// words) count one per occurrence; consecutive title-case words count two
    /// per occurrence as a lowercase bigram; ranked by score, then text.
    pub fn extract_concepts(&self, content: &str, max_concepts: usize) -> (r: Vec<String>)
        ensures
            is_concept_ranking(
                content@,
                max_concepts as nat,
                r@.map_values(|s: String| s@),
            ),
    {
        let lower_s = to_lowercase(content);
        let lower = chars_of(lower_s.as_str());
        let toks = tokenize_words(lower.as_slice());
        let mut table: Vec<(Vec<char>, u128)> = Vec::new();
        let mut i: usize = 0;
        while i < toks.len()
            invariant
                i <= toks.len(),
                views(toks@) == tokens(lowercase(content@)),
                keys_distinct(table_view(table@)),
                weights_positive(table_view(table@)),
                weights_bounded(table@, i as nat),
                forall|x: Seq<char>|
                    table_weight(table_view(table@), x) == unigram_weight(
                        views(toks@),
                        i as nat,
                        x,
                    ),
            decreases toks.len() - i,
        {
            let tok = &toks[i];
            let keep = tok.len() > 2 && !is_stop_word(tok.as_slice());
            if keep {
                table_add(&mut table, tok.clone(), 1);
            }
            proof {
                assert(views(toks@)[i as int] == toks@[i as int]@);
                assert forall|x: Seq<char>|
                    table_weight(table_view(table@), x) == unigram_weight(
                        views(toks@),
                        (i + 1) as nat,
                        x,
                    ) by {
                    assert(unigram_weight(views(toks@), (i + 1) as nat, x) == unigram_weight(
                        views(toks@),
                        i as nat,
                        x,
                    ) + if views(toks@)[i as int] == x && is_concept_token(x) {
                        1nat
                    } else {
                        0nat
                    });
                }
            }
            i = i + 1;
        }
        let cs = chars_of(content);
        let ws = split_whitespace(cs.as_slice());
        let ghost wv = views(ws@);
        let mut n: usize = 0;
        while n < ws.len()
            invariant
                n <= ws.len(),
                wv == views(ws@),
                wv == words(content@),
                views(toks@) == tokens(lowercase(content@)),
                keys_distinct(table_view(table@)),
                weights_positive(table_view(table@)),
                weights_bounded(table@, (toks.len() + 2 * n) as nat),
                forall|x: Seq<char>|
                    table_weight(table_view(table@), x) == unigram_weight(
                        views(toks@),
                        toks@.len(),
                        x,
                    ) + bigram_weight(wv, n as nat, x),
            decreases ws.len() - n,
        {
            let ghost before = table_view(table@);
            if n + 1 < ws.len() {
                let a = strip_punctuation(ws[n].as_slice());
                let b = strip_punctuation(ws[n + 1].as_slice());
                proof {
                    assert(wv[n as int] == ws@[n as int]@);
                    assert(wv[n + 1] == ws@[n + 1]@);
                }
                if is_title_word(a.as_slice()) && is_title_word(b.as_slice()) {
                    let la = chars_of(to_lowercase(string_of(a.as_slice()).as_str()).as_str());
                    let lb = chars_of(to_lowercase(string_of(b.as_slice()).as_str()).as_str());
                    let mut key = la;
                    key.push(' ');
                    let mut k: usize = 0;
                    let ghost kstart = key@;
                    while k < lb.len()
                        invariant
                            k <= lb.len(),
                            key@ == kstart + lb@.subrange(0, k as int),
                        decreases lb.len() - k,
                    {
                        key.push(lb[k]);
                        k = k + 1;
                        assert(key@ =~= kstart + lb@.subrange(0, k as int));
                    }
                    assert(lb@.subrange(0, lb.len() as int) =~= lb@);
                    assert(bigram_key(wv[n as int], wv[n + 1]) == Some(key@));
                    table_add(&mut table, key, 2);
                } else {
                    assert(bigram_key(wv[n as int], wv[n + 1]).is_none());
                }
            }
            proof {
                assert forall|x: Seq<char>|
                    table_weight(table_view(table@), x) == unigram_weight(
                        views(toks@),
                        toks@.len(),
                        x,
                    ) + bigram_weight(wv, (n + 1) as nat, x) by {
                    assert(bigram_weight(wv, (n + 1) as nat, x) == bigram_weight(wv, n as nat, x)
                        + if (n + 1) < wv.len() && bigram_key(wv[n as int], wv[n + 1]) == Some(x) {
                        2nat
                    } else {
                        0nat
                    });
                }
            }
            n = n + 1;
        }
        let idx = top_entries(&table, max_concepts);
        let table_len = table.len();
        assert(table_view(table@).len() == table_len);
        let mut out: Vec<String> = Vec::new();
        let mut j: usize = 0;
        while j < idx.len()
            invariant
                j <= idx.len(),
                is_top_selection(table_view(table@), idx@),
                out@.len() == j,
                forall|q: int| 0 <= q < j ==> out@[q]@ == table_view(table@)[idx@[q] as int].0,
            decreases idx.len() - j,
        {
            let s = string_of(table[idx[j]].0.as_slice());
            out.push(s);
            j = j + 1;
        }
        proof {
            let r = out@.map_values(|s: String| s@);
            assert forall|x: Seq<char>|
                table_weight(table_view(table@), x) == concept_weight(content@, x) by {
                assert(views(toks@).len() == toks@.len());
            }
            lemma_top_is_concept_ranking(
                content@,
                max_concepts as nat,
                table_view(table@),
                idx@,
                r,
            );
        }
        out
    }

    /// Enrich a memory's metadata with its key concepts: metadata that
    /// already records concepts is kept as it is; otherwise the metadata
    /// (an empty object in place of anything that is not an object) gets a
    /// `concepts` member listing the top concepts of `content`.
    pub fn enrich_node(&self, content: &str, metadata: JsonValue) -> (r: JsonValue)
        ensures
            has_concepts(metadata) ==> r == metadata,
            !has_concepts(metadata) ==> {
                &&& r is Object
                &&& recorded_concepts(r) matches Some(items) && all_strings(items)
                    && is_concept_ranking(content@, ENRICH_CONCEPTS as nat, strings_in(items))
                &&& forall|k: Seq<char>|
                    k != "concepts"@ ==> field_spec(object_members(r), k) == field_spec(
                        object_members(metadata),
                        k,
                    )
            },
    {
        let already = match &metadata {
            JsonValue::Object(fs) => match field(fs, "concepts") {
                Some(v) => match v {
                    JsonValue::Null => false,
                    _ => true,
                },
                None => false,
            },
            _ => false,
        };
        if already {
            return metadata;
        }
        let names = self.extract_concepts(content, ENRICH_CONCEPTS);
        let ghost names_v = names@;
        let items = string_items(names);
        proof {
            lemma_strings_in_items(items@, names_v);
            assert(string_views(names_v) =~= names_v.map_values(|s: String| s@));
        }
        let mut fs = match metadata {
            JsonValue::Object(fs) => fs,
            _ => Vec::new(),
        };
        let key = String::from_str("concepts");
        proof {
            reveal_strlit("concepts");
        }
        set_member(&mut fs, key, JsonValue::Array(items));
        JsonValue::Object(fs)
    }
}

} // verus!
