//! SchemaEngine (neocortex): integer-valued `prefix:N` tags on schemas.
use vstd::prelude::*;
use crate::numtext::{format_i64, int_decimal, lemma_parse_format_i64, parse_i64, parse_i64_spec};
use crate::text::{chars_of, has_prefix, slice_vec, starts_with, string_of};

verus! {

/// The characters of each tag.
pub open spec fn tag_views(tags: Seq<String>) -> Seq<Seq<char>> {
    tags.map_values(|t: String| t@)
}

/// The key of a `prefix:N` tag: the prefix followed by a colon.
pub open spec fn tag_key(prefix: Seq<char>) -> Seq<char> {
    prefix + seq![':']
}

/// The value of the first tag that starts with `key` and whose remainder
/// parses as an `i64`, or `default` when there is none.
pub open spec fn tag_int_spec(tags: Seq<Seq<char>>, key: Seq<char>, default: i64) -> i64
    decreases tags.len(),
{
    if tags.len() == 0 {
        default
    } else if starts_with(tags[0], key) && parse_i64_spec(
        tags[0].subrange(key.len() as int, tags[0].len() as int),
    ).is_some() {
        parse_i64_spec(tags[0].subrange(key.len() as int, tags[0].len() as int))->0
    } else {
        tag_int_spec(tags.drop_first(), key, default)
    }
}

/// The tags without those starting with `key`, in order, followed by
/// `key` + the decimal text of `value`.
pub open spec fn set_tag_int_spec(tags: Seq<Seq<char>>, key: Seq<char>, value: i64) -> Seq<
    Seq<char>,
> {
    tags.filter(|t: Seq<char>| !starts_with(t, key)).push(key + int_decimal(value as int))
}

/// SchemaEngine — neocortex.
pub struct SchemaEngine;

fn key_of(prefix: &str) -> (k: Vec<char>)
    ensures
        k@ == tag_key(prefix@),
{
    let mut k = chars_of(prefix);
    k.push(':');
    k
}

impl Default for SchemaEngine {
    fn default() -> (r: Self)
        ensures
            r == SchemaEngine,
    {
        SchemaEngine::new()
    }
}

impl SchemaEngine {
    pub fn new() -> (r: Self)
        ensures
            r == SchemaEngine,
    {
        SchemaEngine
    }

    /// Extract the integer from a `"prefix:N"` tag; `default` if there is none.
    pub fn get_tag_int(tags: &[String], prefix: &str, default: i64) -> (r: i64)
        ensures
            r == tag_int_spec(tag_views(tags@), tag_key(prefix@), default),
    {
        let key = key_of(prefix);
        let mut i: usize = 0;
        assert(tag_views(tags@).subrange(0, tags@.len() as int) =~= tag_views(tags@));
        while i < tags.len()
            invariant
                i <= tags.len(),
                key@ == tag_key(prefix@),
                tag_int_spec(tag_views(tags@), key@, default) == tag_int_spec(
                    tag_views(tags@).subrange(i as int, tags@.len() as int),
                    key@,
                    default,
                ),
            decreases tags.len() - i,
        {
            let t = chars_of(tags[i].as_str());
            let ghost rest = tag_views(tags@).subrange(i as int, tags@.len() as int);
            assert(rest[0] == t@);
            assert(rest.drop_first() =~= tag_views(tags@).subrange(i + 1, tags@.len() as int));
            if has_prefix(t.as_slice(), key.as_slice()) {
                let tail = slice_vec(t.as_slice(), key.len(), t.len());
                match parse_i64(tail.as_slice()) {
                    Some(n) => {
                        return n;
                    },
                    None => {},
                }
            }
            i = i + 1;
        }
        assert(tag_views(tags@).subrange(i as int, tags@.len() as int).len() == 0);
        default
    }

    /// Set a `"prefix:N"` tag, replacing any existing one with the same prefix.
    pub fn set_tag_int(tags: &[String], prefix: &str, value: i64) -> (r: Vec<String>)
        ensures
            tag_views(r@) == set_tag_int_spec(tag_views(tags@), tag_key(prefix@), value),
    {
        let key = key_of(prefix);
        let mut out: Vec<String> = Vec::new();
        let mut i: usize = 0;
        while i < tags.len()
            invariant
                i <= tags.len(),
                key@ == tag_key(prefix@),
                tag_views(out@) == tag_views(tags@).subrange(0, i as int).filter(
                    |t: Seq<char>| !starts_with(t, key@),
                ),
            decreases tags.len() - i,
        {
            let t = chars_of(tags[i].as_str());
            proof {
                let pre = tag_views(tags@).subrange(0, i + 1);
                assert(pre.drop_last() =~= tag_views(tags@).subrange(0, i as int));
                assert(pre.last() == t@);
                reveal(Seq::filter);
            }
            if !has_prefix(t.as_slice(), key.as_slice()) {
                let ghost before = out@;
                out.push(tags[i].clone());
                assert(tag_views(out@) =~= tag_views(before).push(t@));
            } else {
            }
            i = i + 1;
        }
        assert(tag_views(tags@).subrange(0, tags@.len() as int) =~= tag_views(tags@));
        let mut text = key.clone();
        let digits = format_i64(value);
        let mut k: usize = 0;
        let ghost start = text@;
        while k < digits.len()
            invariant
                k <= digits.len(),
                text@ == start + digits@.subrange(0, k as int),
            decreases digits.len() - k,
        {
            text.push(digits[k]);
            k = k + 1;
            assert(text@ =~= start + digits@.subrange(0, k as int));
        }
        assert(digits@.subrange(0, digits.len() as int) =~= digits@);
        let ghost before = out@;
        out.push(string_of(text.as_slice()));
        assert(tag_views(out@) =~= tag_views(before).push(text@));
        out
    }
}


proof fn lemma_tag_int_skip(a: Seq<Seq<char>>, b: Seq<Seq<char>>, key: Seq<char>, default: i64)
    requires
        forall|i: int| 0 <= i < a.len() ==> !starts_with(#[trigger] a[i], key),
    ensures
        tag_int_spec(a + b, key, default) == tag_int_spec(b, key, default),
    decreases a.len(),
{
    if a.len() > 0 {
        assert((a + b)[0] == a[0]);
        assert((a + b).drop_first() =~= a.drop_first() + b);
        lemma_tag_int_skip(a.drop_first(), b, key, default);
    } else {
        assert(a + b =~= b);
    }
}

/// Setting an integer tag and then reading it back gives the value that was
/// set, whatever the tags held before and whatever the default.
pub proof fn law_set_then_get_tag_int(
    tags: Seq<Seq<char>>,
    prefix: Seq<char>,
    value: i64,
    default: i64,
)
    ensures
        tag_int_spec(set_tag_int_spec(tags, tag_key(prefix), value), tag_key(prefix), default)
            == value,
{
    let key = tag_key(prefix);
    let kept = tags.filter(|t: Seq<char>| !starts_with(t, key));
    let last = key + int_decimal(value as int);
    assert forall|i: int| 0 <= i < kept.len() implies !starts_with(#[trigger] kept[i], key) by {
        tags.lemma_filter_pred(|t: Seq<char>| !starts_with(t, key), i);
    }
    assert(kept.push(last) =~= kept + seq![last]);
    lemma_tag_int_skip(kept, seq![last], key, default);
    assert(last.subrange(0, key.len() as int) =~= key);
    assert(last.subrange(key.len() as int, last.len() as int) =~= int_decimal(value as int));
    lemma_parse_format_i64(value);
}

/// After setting, exactly one tag starts with the key: the one just written.
pub proof fn law_set_tag_int_single(tags: Seq<Seq<char>>, prefix: Seq<char>, value: i64)
    ensures
        ({
            let r = set_tag_int_spec(tags, tag_key(prefix), value);
            &&& starts_with(r.last(), tag_key(prefix))
            &&& forall|i: int| 0 <= i < r.len() - 1 ==> !starts_with(#[trigger] r[i], tag_key(prefix))
        }),
{
    let key = tag_key(prefix);
    let kept = tags.filter(|t: Seq<char>| !starts_with(t, key));
    let r = set_tag_int_spec(tags, key, value);
    let last = key + int_decimal(value as int);
    assert(last.subrange(0, key.len() as int) =~= key);
    assert forall|i: int| 0 <= i < r.len() - 1 implies !starts_with(#[trigger] r[i], key) by {
        assert(r[i] == kept[i]);
        tags.lemma_filter_pred(|t: Seq<char>| !starts_with(t, key), i);
    }
}

} // verus!
