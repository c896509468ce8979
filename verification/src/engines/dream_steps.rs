//! The decisions inside the dream phases that consult a language model: the
//! numbered excerpts and prompts a call shows, which candidates a reply
//! yields, and the tags the memories it creates receive.
use vstd::prelude::*;
use crate::engines::dream::{is_structural_spec, is_structural_tag, truncate_chars, SKILL_CHAMPION_TAG};
use crate::engines::temporal::{lemma_lex_total, lemma_lex_trans, lex_less, lex_lt};
use crate::json::{content_text, field, field_spec, strings_in, tags_of, JsonValue};
use crate::numtext::nat_decimal;
use crate::text::{
    chars_of, join, join_chars, push_all, replace_all, starts_with, string_of, string_views,
    take_chars, trim, trim_vec, slice_vec, utf8_width,
};
use crate::types::{LinkType, MemoryLayer};

verus! {

/// The system prompt of every dream-phase model call.
pub const SYSTEM_DREAM: &'static str =
    "You are the Dream Engine of CerebroCortex, a brain-analogous AI memory system. \
     You process memories during consolidation, extracting patterns, creating schemas, \
     and finding unexpected connections. Respond in structured JSON only.";

/// Pattern extraction: reusable procedures from a cluster of memories.
pub const PROMPT_EXTRACT_PATTERNS: &'static str = "Analyze these memories and extract reusable patterns or procedures.\n\
\nMemories:\n{memories}\n\
\nReturn a JSON array of extracted patterns. Each pattern should have:\n\
- \"content\": A clear, actionable procedure or pattern (1-3 sentences)\n\
- \"source_indices\": Which memory indices (0-based) this pattern comes from\n\
- \"tags\": Relevant tags for the pattern\n\
\nReturn ONLY valid JSON array. Example:\n\
[{\"content\": \"When debugging async code, check the event loop first, then verify awaits\", \
\"source_indices\": [0, 2], \"tags\": [\"debugging\", \"async\"]}]";

/// Schema formation: one abstract principle from an episode's memories.
pub const PROMPT_FORM_SCHEMA: &'static str = "Analyze these related memories and form an abstract schema (general principle).\n\
\nMemories:\n{memories}\n\
\nWhat general principle, pattern, or lesson connects these memories?\n\
\nReturn JSON with:\n\
- \"content\": The abstract principle (1-2 sentences, general enough to apply beyond these specific cases)\n\
- \"tags\": Relevant categorization tags\n\
\nReturn ONLY valid JSON object. Example:\n\
{\"content\": \"Iterative refinement with user feedback produces better results than upfront design\", \
\"tags\": [\"methodology\", \"development\"]}";

/// Skill distillation: one abstract skill from successful procedures.
pub const PROMPT_DISTILL_SKILL: &'static str = "These are concrete procedures the agent has used SUCCESSFULLY on real tasks. \
Distil them into ONE abstract, reusable skill — the general way this kind of task is done.\n\
\nSuccessful procedures:\n{procedures}\n\
\nReturn JSON with:\n\
- \"content\": The abstract skill (1-3 sentences, general enough to apply to new instances of the task, written as actionable guidance — not a summary of these specific runs)\n\
- \"tags\": Relevant skill tags\n\
\nReturn ONLY valid JSON object. Example:\n\
{\"content\": \"To debug async Rust, first confirm the runtime is multi-threaded, then trace each .await for a held lock or missing poll before suspecting the logic itself\", \
\"tags\": [\"debugging\", \"async\", \"rust\"]}";

/// Refinement: an improved variant of an underperforming procedure.
pub const PROMPT_REFINE_PROCEDURE: &'static str = "This is a procedure the agent has tried on real tasks, \
but it has been UNDERPERFORMING — it fails or underdelivers more often than it should.\n\
\nProcedure:\n{procedure}\n\
\nPropose ONE improved variant of it: keep what works, fix the most likely cause of failure, \
and make it more reliable. It must be a concrete, actionable procedure for the SAME kind of \
task — an improved how-to, not a critique of the original.\n\
\nReturn JSON with:\n\
- \"content\": The improved procedure (1-4 sentences, actionable guidance)\n\
- \"tags\": Relevant topical tags (the task domain)\n\
\nReturn ONLY valid JSON object. Example:\n\
{\"content\": \"To restart a wedged service, first capture its last 50 log lines, stop it, \
verify the port is released, then start and confirm readiness before declaring success\", \
\"tags\": [\"ops\", \"service-restart\"]}";

/// Recombination: one hybrid of two strong procedures of a niche.
pub const PROMPT_MERGE_PROCEDURES: &'static str = "These are TWO procedures the agent uses for the SAME \
kind of task. Each has a solid track record, but they take different approaches.\n\
\nProcedure A:\n{procedure_a}\n\nProcedure B:\n{procedure_b}\n\
\nSynthesise ONE hybrid procedure that combines the strengths of both — the most reliable \
way to do the task, drawing the best steps from each. It must be a concrete, actionable \
procedure, not a comparison of the two.\n\
\nReturn JSON with:\n\
- \"content\": The combined procedure (1-4 sentences, actionable guidance)\n\
- \"tags\": Relevant topical tags (the task domain)\n\
\nReturn ONLY valid JSON object.";

/// REM recombination: a connection between two unrelated memories.
pub const PROMPT_REM_CONNECT: &'static str = "You are looking at two seemingly unrelated memories. \
Find an unexpected but meaningful connection.\n\
\nMemory A: {memory_a}\nMemory B: {memory_b}\n\
\nIs there a meaningful connection between these? If yes, describe it.\n\
\nReturn JSON with:\n\
- \"connected\": true/false\n\
- \"link_type\": One of: semantic, causal, supports, contradicts\n\
- \"reason\": Brief explanation of the connection (1 sentence)\n\
- \"weight\": Connection strength 0.0-1.0\n\
\nReturn ONLY valid JSON object.";

/// One excerpt line: `[i] ` and the first `width` characters of `content`.
pub open spec fn excerpt_line(i: nat, content: Seq<char>, width: nat) -> Seq<char> {
    "["@ + nat_decimal(i) + "] "@ + take_chars(content, width as int)
}

/// How many of `n` items a block of at most `limit` shows.
pub open spec fn shown(n: nat, limit: nat) -> nat {
    if n < limit {
        n
    } else {
        limit
    }
}

/// The excerpt lines of the first `limit` contents.
pub open spec fn excerpt_lines(contents: Seq<Seq<char>>, limit: nat, width: nat) -> Seq<Seq<char>> {
    Seq::new(shown(contents.len(), limit), |i: int| excerpt_line(i as nat, contents[i], width))
}

/// The excerpt block a prompt shows: the first `limit` contents, each cut
/// to `width` characters, numbered from 0, one per line.
pub open spec fn excerpts_spec(contents: Seq<Seq<char>>, limit: nat, width: nat) -> Seq<char> {
    join(excerpt_lines(contents, limit, width), "\n"@)
}

/// Build the excerpt block a prompt shows.
pub fn numbered_excerpts(contents: &Vec<String>, limit: usize, width: usize) -> (r: String)
    ensures
        r@ == excerpts_spec(crate::text::string_views(contents@), limit as nat, width as nat),
{
    let ghost cs = crate::text::string_views(contents@);
    let n = if contents.len() < limit {
        contents.len()
    } else {
        limit
    };
    let mut lines: Vec<Vec<char>> = Vec::new();
    let mut i: usize = 0;
    while i < n
        invariant
            n == shown(cs.len(), limit as nat),
            n <= contents@.len(),
            cs == crate::text::string_views(contents@),
            i <= n,
            lines@.len() == i,
            forall|j: int| 0 <= j < i ==> (#[trigger] lines@[j])@ == excerpt_line(j as nat, cs[j], width as nat),
        decreases n - i,
    {
        let mut line: Vec<char> = Vec::new();
        line.push('[');
        let num = crate::numtext::format_u64(i as u64);
        push_all(&mut line, num.as_slice());
        line.push(']');
        line.push(' ');
        let head = crate::text::head_string(contents[i].as_str(), width);
        let hc = chars_of(head.as_str());
        push_all(&mut line, hc.as_slice());
        proof {
            reveal_strlit("[");
            reveal_strlit("] ");
        }
        assert(line@ =~= excerpt_line(i as nat, cs[i as int], width as nat));
        lines.push(line);
        i = i + 1;
    }
    let sep = chars_of("\n");
    let all = join_chars(&lines, sep.as_slice());
    proof {
        assert(crate::text::views(lines@) =~= excerpt_lines(cs, limit as nat, width as nat));
    }
    string_of(all.as_slice())
}

/// `template` with every `slot` replaced by `value` (`str::replace`).
pub fn fill(template: &str, slot: &str, value: &str) -> (r: String)
    ensures
        r@ == replace_all(template@, slot@, value@),
{
    let t = chars_of(template);
    let s = chars_of(slot);
    let v = chars_of(value);
    let out = crate::text::replace_chars(t.as_slice(), s.as_slice(), v.as_slice());
    string_of(out.as_slice())
}

/// The pattern-extraction prompt for a cluster's excerpt block.
pub fn pattern_prompt(excerpts: &str) -> (r: String)
    ensures
        r@ == replace_all(PROMPT_EXTRACT_PATTERNS@, "{memories}"@, excerpts@),
{
    fill(PROMPT_EXTRACT_PATTERNS, "{memories}", excerpts)
}

/// The schema-formation prompt for an episode's excerpt block.
pub fn schema_prompt(excerpts: &str) -> (r: String)
    ensures
        r@ == replace_all(PROMPT_FORM_SCHEMA@, "{memories}"@, excerpts@),
{
    fill(PROMPT_FORM_SCHEMA, "{memories}", excerpts)
}

/// The skill-distillation prompt for a cluster's excerpt block.
pub fn skill_prompt(excerpts: &str) -> (r: String)
    ensures
        r@ == replace_all(PROMPT_DISTILL_SKILL@, "{procedures}"@, excerpts@),
{
    fill(PROMPT_DISTILL_SKILL, "{procedures}", excerpts)
}

/// The characters of a procedure a refinement prompt shows.
pub const REFINE_EXCERPT_CHARS: usize = 400;

/// The characters of each procedure a recombination prompt shows.
pub const MERGE_EXCERPT_CHARS: usize = 300;

/// The refinement prompt for a procedure.
pub fn refine_prompt(procedure: &str) -> (r: String)
    ensures
        r@ == replace_all(
            PROMPT_REFINE_PROCEDURE@,
            "{procedure}"@,
            take_chars(procedure@, REFINE_EXCERPT_CHARS as int),
        ),
{
    let head = crate::text::head_string(procedure, REFINE_EXCERPT_CHARS);
    fill(PROMPT_REFINE_PROCEDURE, "{procedure}", head.as_str())
}

/// The recombination prompt for two procedures.
pub fn merge_prompt(a: &str, b: &str) -> (r: String)
    ensures
        r@ == replace_all(
            replace_all(PROMPT_MERGE_PROCEDURES@, "{procedure_a}"@, take_chars(a@, MERGE_EXCERPT_CHARS as int)),
            "{procedure_b}"@,
            take_chars(b@, MERGE_EXCERPT_CHARS as int),
        ),
{
    let ha = crate::text::head_string(a, MERGE_EXCERPT_CHARS);
    let hb = crate::text::head_string(b, MERGE_EXCERPT_CHARS);
    let first = fill(PROMPT_MERGE_PROCEDURES, "{procedure_a}", ha.as_str());
    fill(first.as_str(), "{procedure_b}", hb.as_str())
}

/// The text of a reply's `content` member (empty when it has none).
pub open spec fn reply_text(v: JsonValue) -> Seq<char> {
    match v {
        JsonValue::Object(o) => content_text(o@),
        _ => Seq::empty(),
    }
}

/// The shortest content, in bytes, that a memory a model proposes may have.
pub const MIN_PROPOSAL_BYTES: usize = 10;

/// The content a model proposes in a reply: its `content` text trimmed,
/// unless that is under `MIN_PROPOSAL_BYTES` bytes.
pub open spec fn proposal_spec(v: JsonValue) -> Option<Seq<char>> {
    if vstd::utf8::encode_utf8(trim(reply_text(v))).len() >= MIN_PROPOSAL_BYTES {
        Some(trim(reply_text(v)))
    } else {
        None
    }
}

/// The content a model proposes in a reply, if long enough.
pub fn proposal(v: &JsonValue) -> (r: Option<String>)
    ensures
        match r {
            Some(t) => proposal_spec(*v) == Some(t@),
            None => proposal_spec(*v) is None,
        },
{
    let text: Vec<char> = match v {
        JsonValue::Object(o) => match field(o, "content") {
            Some(JsonValue::Str(s)) => chars_of(s.as_str()),
            _ => Vec::new(),
        },
        _ => Vec::new(),
    };
    proof {
        reveal_strlit("content");
    }
    assert(text@ == reply_text(*v));
    let t = trim_vec(text.as_slice());
    if crate::text::utf8_len_at_least(t.as_slice(), MIN_PROPOSAL_BYTES) {
        Some(string_of(t.as_slice()))
    } else {
        None
    }
}

/// The tags a reply lists: the strings of its `tags` array, none when it
/// has no such array.
pub open spec fn reply_tags_spec(v: JsonValue) -> Option<Seq<Seq<char>>> {
    match v {
        JsonValue::Object(o) => match field_spec(o@, "tags"@) {
            Some(JsonValue::Array(a)) => Some(strings_in(a@)),
            _ => None,
        },
        _ => None,
    }
}

/// The tags a reply lists.
pub fn reply_tags(v: &JsonValue) -> (r: Option<Vec<String>>)
    ensures
        match r {
            Some(t) => reply_tags_spec(*v) == Some(string_views(t@)),
            None => reply_tags_spec(*v) is None,
        },
{
    match v {
        JsonValue::Object(o) => {
            let t = field(o, "tags");
            proof {
                reveal_strlit("tags");
            }
            match t {
                Some(JsonValue::Array(_)) => Some(tags_of(t)),
                _ => None,
            }
        },
        _ => None,
    }
}

/// How many leading characters two contents must share to count as one.
pub const DEDUP_PREFIX_CHARS: usize = 40;

/// Some existing content begins with the first `DEDUP_PREFIX_CHARS`
/// characters of `content`.
pub open spec fn known_spec(content: Seq<char>, existing: Seq<Seq<char>>) -> bool {
    exists|i: int|
        0 <= i < existing.len() && starts_with(#[trigger] existing[i], take_chars(content, DEDUP_PREFIX_CHARS as int))
}

/// Whether a proposed content repeats the opening of an existing one.
pub fn is_known(content: &str, existing: &Vec<String>) -> (r: bool)
    ensures
        r == known_spec(content@, string_views(existing@)),
{
    let head = truncate_chars(content, DEDUP_PREFIX_CHARS);
    let hc = chars_of(head);
    let mut i: usize = 0;
    while i < existing.len()
        invariant
            i <= existing@.len(),
            hc@ == take_chars(content@, DEDUP_PREFIX_CHARS as int),
            forall|j: int| 0 <= j < i ==> !starts_with(#[trigger] string_views(existing@)[j], hc@),
        decreases existing@.len() - i,
    {
        let e = chars_of(existing[i].as_str());
        if crate::text::has_prefix(e.as_slice(), hc.as_slice()) {
            assert(string_views(existing@)[i as int] == e@);
            return true;
        }
        assert(string_views(existing@)[i as int] == e@);
        i = i + 1;
    }
    false
}

fn owned(s: &str) -> (r: String)
    ensures
        r@ == s@,
{
    s.to_owned()
}

/// `front` followed by copies of `rest`.
fn prefixed(front: Vec<String>, rest: &Vec<String>) -> (r: Vec<String>)
    ensures
        string_views(r@) == string_views(front@) + string_views(rest@),
{
    let mut out = front;
    let ghost f = string_views(out@);
    let mut k: usize = 0;
    while k < rest.len()
        invariant
            k <= rest@.len(),
            string_views(out@) == f + string_views(rest@).subrange(0, k as int),
        decreases rest@.len() - k,
    {
        let ghost before = string_views(out@);
        out.push(rest[k].clone());
        assert(string_views(out@) =~= before.push(rest@[k as int]@));
        k = k + 1;
        assert(string_views(out@) =~= f + string_views(rest@).subrange(0, k as int));
    }
    assert(string_views(rest@).subrange(0, rest@.len() as int) =~= string_views(rest@));
    out
}

/// The tags of a procedure that pattern extraction stores: the markers,
/// then the reply's tags, or the cluster's tag when the reply lists none.
pub open spec fn extracted_tags_spec(listed: Option<Seq<Seq<char>>>, tag: Seq<char>) -> Seq<Seq<char>> {
    seq!["procedure"@, "dream_extracted"@] + match listed {
        Some(t) => t,
        None => seq![tag],
    }
}

/// The tags of an extracted procedure.
pub fn extracted_tags(listed: &Option<Vec<String>>, tag: &str) -> (r: Vec<String>)
    ensures
        string_views(r@) == extracted_tags_spec(
            match listed {
                Some(t) => Some(string_views(t@)),
                None => None,
            },
            tag@,
        ),
{
    let mut front: Vec<String> = Vec::new();
    front.push(owned("procedure"));
    front.push(owned("dream_extracted"));
    proof {
        reveal_strlit("procedure");
        reveal_strlit("dream_extracted");
    }
    let own: Vec<String> = match listed {
        Some(t) => prefixed(Vec::new(), t),
        None => {
            let mut v: Vec<String> = Vec::new();
            v.push(owned(tag));
            v
        },
    };
    let r = prefixed(front, &own);
    assert(string_views(r@) =~= extracted_tags_spec(
        match listed {
            Some(t) => Some(string_views(t@)),
            None => None,
        },
        tag@,
    ));
    r
}

/// The tags of a schema that schema formation stores.
pub open spec fn schema_tags_spec(listed: Seq<Seq<char>>) -> Seq<Seq<char>> {
    seq!["schema"@, "support_count:0"@, "dream_formed"@] + listed
}

/// The tags of a formed schema, given the tags its reply lists.
pub fn schema_tags(listed: &Vec<String>) -> (r: Vec<String>)
    ensures
        string_views(r@) == schema_tags_spec(string_views(listed@)),
{
    let mut front: Vec<String> = Vec::new();
    front.push(owned("schema"));
    front.push(owned("support_count:0"));
    front.push(owned("dream_formed"));
    proof {
        reveal_strlit("schema");
        reveal_strlit("support_count:0");
        reveal_strlit("dream_formed");
    }
    let r = prefixed(front, listed);
    assert(string_views(r@) =~= schema_tags_spec(string_views(listed@)));
    r
}

/// The tags of a skill distilled from `support` procedures of the cluster
/// `tag`.
pub open spec fn skill_tags_spec(support: nat, tag: Seq<char>, listed: Seq<Seq<char>>) -> Seq<Seq<char>> {
    seq!["schema"@, "skill"@, "dream_distilled"@, "support_count:"@ + nat_decimal(support), tag] + listed
}

/// The tags of a distilled skill, given the tags its reply lists.
pub fn skill_tags(support: usize, tag: &str, listed: &Vec<String>) -> (r: Vec<String>)
    ensures
        string_views(r@) == skill_tags_spec(support as nat, tag@, string_views(listed@)),
{
    let mut count = chars_of("support_count:");
    let num = crate::numtext::format_u64(support as u64);
    push_all(&mut count, num.as_slice());
    let mut front: Vec<String> = Vec::new();
    front.push(owned("schema"));
    front.push(owned("skill"));
    front.push(owned("dream_distilled"));
    front.push(string_of(count.as_slice()));
    front.push(owned(tag));
    proof {
        reveal_strlit("schema");
        reveal_strlit("skill");
        reveal_strlit("dream_distilled");
    }
    let r = prefixed(front, listed);
    assert(string_views(r@) =~= skill_tags_spec(support as nat, tag@, string_views(listed@)));
    r
}

/// `v` lists strings in strictly increasing order, characters compared in
/// turn (the order of `String`'s `Ord`, which compares UTF-8 bytes).
pub open spec fn strictly_sorted(v: Seq<Seq<char>>) -> bool {
    forall|i: int, j: int| 0 <= i < j < v.len() ==> lex_lt(#[trigger] v[i], #[trigger] v[j])
}

/// Insert `s` into a strictly sorted list unless it is already there.
fn insert_sorted(v: &mut Vec<String>, s: &String)
    requires
        strictly_sorted(string_views(old(v)@)),
    ensures
        strictly_sorted(string_views(final(v)@)),
        forall|t: Seq<char>|
            string_views(final(v)@).contains(t) <==> (string_views(old(v)@).contains(t) || t == s@),
{
    let ghost ov = string_views(v@);
    let sc = chars_of(s.as_str());
    let mut k: usize = 0;
    let mut go = true;
    while go && k < v.len()
        invariant
            string_views(v@) == ov,
            sc@ == s@,
            k <= v@.len(),
            forall|j: int| 0 <= j < k ==> lex_lt(#[trigger] ov[j], s@),
            !go ==> k < v@.len() && !lex_lt(ov[k as int], s@),
        decreases v@.len() - k + (if go { 1int } else { 0int }),
    {
        let e = chars_of(v[k].as_str());
        assert(e@ == ov[k as int]);
        if lex_less(e.as_slice(), sc.as_slice()) {
            k = k + 1;
        } else {
            go = false;
        }
    }
    if k < v.len() {
        if crate::text::str_eq(v[k].as_str(), s.as_str()) {
            assert(ov[k as int] == s@);
            return;
        }
    }
    v.insert(k, s.clone());
    proof {
        let nv = string_views(v@);
        assert(nv =~= ov.insert(k as int, s@));
        if k < ov.len() {
            lemma_lex_total(ov[k as int], s@);
        }
        assert forall|i: int, j: int| 0 <= i < j < nv.len() implies lex_lt(#[trigger] nv[i], #[trigger] nv[j]) by {
            if j < k {
                assert(lex_lt(ov[i], ov[j]));
            } else if j == k {
                assert(lex_lt(ov[i], s@));
            } else if i < k {
                assert(lex_lt(ov[i], ov[j - 1]));
            } else if i == k {
                if j - 1 > k {
                    assert(lex_lt(ov[k as int], ov[j - 1]));
                    lemma_lex_trans(s@, ov[k as int], ov[j - 1]);
                }
            } else {
                assert(lex_lt(ov[i - 1], ov[j - 1]));
            }
        }
        assert forall|t: Seq<char>| nv.contains(t) <==> (ov.contains(t) || t == s@) by {
            if nv.contains(t) {
                let i = choose|i: int| 0 <= i < nv.len() && nv[i] == t;
                if i < k {
                    assert(ov[i] == t);
                } else if i > k {
                    assert(ov[i - 1] == t);
                }
            }
            if ov.contains(t) {
                let i = choose|i: int| 0 <= i < ov.len() && ov[i] == t;
                if i < k {
                    assert(nv[i] == t);
                } else {
                    assert(nv[i + 1] == t);
                }
            }
            if t == s@ {
                assert(nv[k as int] == t);
            }
        }
    }
}

/// The distinct strings of `tags`, in increasing order (`sort` then
/// `dedup`).
pub fn sorted_unique(tags: &Vec<String>) -> (r: Vec<String>)
    ensures
        strictly_sorted(string_views(r@)),
        forall|t: Seq<char>| string_views(r@).contains(t) <==> string_views(tags@).contains(t),
{
    let mut out: Vec<String> = Vec::new();
    let ghost tv = string_views(tags@);
    let mut k: usize = 0;
    while k < tags.len()
        invariant
            k <= tags@.len(),
            tv == string_views(tags@),
            strictly_sorted(string_views(out@)),
            forall|t: Seq<char>| string_views(out@).contains(t) <==> tv.subrange(0, k as int).contains(t),
        decreases tags@.len() - k,
    {
        insert_sorted(&mut out, &tags[k]);
        proof {
            let s0 = tv.subrange(0, k as int);
            let s1 = tv.subrange(0, k + 1);
            assert forall|t: Seq<char>| s1.contains(t) <==> (s0.contains(t) || t == tags@[k as int]@) by {
                if s1.contains(t) {
                    let i = choose|i: int| 0 <= i < s1.len() && s1[i] == t;
                    if i < k {
                        assert(s0[i] == t);
                    }
                }
                if s0.contains(t) {
                    let i = choose|i: int| 0 <= i < s0.len() && s0[i] == t;
                    assert(s1[i] == t);
                }
                if t == tags@[k as int]@ {
                    assert(s1[k as int] == t);
                }
            }
        }
        k = k + 1;
    }
    assert(tv.subrange(0, tags@.len() as int) =~= tv);
    out
}

/// A tag of a new variant: a marker, a topical tag of a parent, or a tag the
/// reply lists.
pub open spec fn variant_tag_spec(t: Seq<char>, marker: Seq<char>, parents: Seq<Seq<char>>, listed: Seq<Seq<char>>) -> bool {
    t == "procedure"@ || t == marker || (parents.contains(t) && !is_structural_spec(t)) || listed.contains(t)
}

/// A member of a concatenation is a member of one of its parts.
proof fn lemma_concat_contains(a: Seq<Seq<char>>, b: Seq<Seq<char>>)
    ensures
        forall|t: Seq<char>| #[trigger] (a + b).contains(t) <==> (a.contains(t) || b.contains(t)),
{
    assert forall|t: Seq<char>| #[trigger] (a + b).contains(t) <==> (a.contains(t) || b.contains(t)) by {
        if (a + b).contains(t) {
            let i = choose|i: int| 0 <= i < (a + b).len() && (a + b)[i] == t;
            if i < a.len() {
                assert(a[i] == t);
            } else {
                assert(b[i - a.len()] == t);
            }
        }
        if a.contains(t) {
            let i = choose|i: int| 0 <= i < a.len() && a[i] == t;
            assert((a + b)[i] == t);
        }
        if b.contains(t) {
            let i = choose|i: int| 0 <= i < b.len() && b[i] == t;
            assert((a + b)[a.len() + i] == t);
        }
    }
}

/// The markers and the topical tags among the first `k` parent tags.
pub open spec fn marked_topical(t: Seq<char>, marker: Seq<char>, parents: Seq<Seq<char>>, k: int) -> bool {
    t == "procedure"@ || t == marker || (parents.subrange(0, k).contains(t) && !is_structural_spec(t))
}

/// Taking one more parent tag: kept when topical.
proof fn lemma_topical_step(
    before: Seq<Seq<char>>,
    now: Seq<Seq<char>>,
    marker: Seq<char>,
    parents: Seq<Seq<char>>,
    k: int,
)
    requires
        0 <= k < parents.len(),
        forall|t: Seq<char>| #[trigger] before.contains(t) <==> marked_topical(t, marker, parents, k),
        now == (if is_structural_spec(parents[k]) {
            before
        } else {
            before.push(parents[k])
        }),
    ensures
        forall|t: Seq<char>| #[trigger] now.contains(t) <==> marked_topical(t, marker, parents, k + 1),
{
    let s0 = parents.subrange(0, k);
    let s1 = parents.subrange(0, k + 1);
    assert(s1 =~= s0.push(parents[k]));
    assert forall|t: Seq<char>| #[trigger] now.contains(t) <==> marked_topical(t, marker, parents, k + 1) by {
        assert(s1.contains(t) <==> (s0.contains(t) || t == parents[k])) by {
            if s1.contains(t) {
                let i = choose|i: int| 0 <= i < s1.len() && s1[i] == t;
                if i < k {
                    assert(s0[i] == t);
                }
            }
            if s0.contains(t) {
                let i = choose|i: int| 0 <= i < s0.len() && s0[i] == t;
                assert(s1[i] == t);
            }
            if t == parents[k] {
                assert(s1[k] == t);
            }
        }
        if !is_structural_spec(parents[k]) {
            assert(before.push(parents[k]).contains(t) <==> (before.contains(t) || t == parents[k])) by {
                let p = before.push(parents[k]);
                if p.contains(t) {
                    let i = choose|i: int| 0 <= i < p.len() && p[i] == t;
                    if i < before.len() {
                        assert(before[i] == t);
                    }
                }
                if before.contains(t) {
                    let i = choose|i: int| 0 <= i < before.len() && before[i] == t;
                    assert(p[i] == t);
                }
                if t == parents[k] {
                    assert(p[before.len() as int] == t);
                }
            }
        }
    }
}

/// The tags of a variant that refinement (`marker` `dream_mutated`) or
/// recombination (`dream_merged`) stores: the markers, the topical tags of
/// its parents and the tags its reply lists, sorted, each once.
pub fn variant_tags(marker: &str, parents: &Vec<String>, listed: &Vec<String>) -> (r: Vec<String>)
    ensures
        strictly_sorted(string_views(r@)),
        forall|t: Seq<char>|
            string_views(r@).contains(t) <==> variant_tag_spec(
                t,
                marker@,
                string_views(parents@),
                string_views(listed@),
            ),
{
    let mut all: Vec<String> = Vec::new();
    all.push(owned("procedure"));
    all.push(owned(marker));
    let ghost pv = string_views(parents@);
    proof {
        reveal_strlit("procedure");
        let a0 = string_views(all@);
        assert(a0 =~= seq!["procedure"@, marker@]);
        assert forall|t: Seq<char>| #[trigger] a0.contains(t) <==> marked_topical(t, marker@, pv, 0) by {
            if t == "procedure"@ {
                assert(a0[0] == t);
            }
            if t == marker@ {
                assert(a0[1] == t);
            }
        }
    }
    let mut k: usize = 0;
    while k < parents.len()
        invariant
            k <= parents@.len(),
            pv == string_views(parents@),
            forall|t: Seq<char>| #[trigger] string_views(all@).contains(t) <==> marked_topical(t, marker@, pv, k as int),
        decreases parents@.len() - k,
    {
        let ghost before = string_views(all@);
        if !is_structural_tag(parents[k].as_str()) {
            all.push(parents[k].clone());
            assert(string_views(all@) =~= before.push(pv[k as int]));
        }
        proof {
            lemma_topical_step(before, string_views(all@), marker@, pv, k as int);
        }
        k = k + 1;
    }
    let ghost allv = string_views(all@);
    assert(pv.subrange(0, parents@.len() as int) =~= pv);
    let combined = prefixed(all, listed);
    let r = sorted_unique(&combined);
    proof {
        lemma_concat_contains(allv, string_views(listed@));
        assert forall|t: Seq<char>| string_views(r@).contains(t) <==> variant_tag_spec(
            t,
            marker@,
            pv,
            string_views(listed@),
        ) by {
            assert(allv.contains(t) <==> marked_topical(t, marker@, pv, pv.len() as int));
            assert((allv + string_views(listed@)).contains(t) <==> (allv.contains(t) || string_views(listed@).contains(t)));
        }
    }
    r
}

/// What niche competition decided for a procedure.
pub enum Verdict {
    /// The fittest of some niche.
    Champion,
    /// Trailing a niche's champion by more than the margin.
    Demote,
    /// Neither.
    Leave,
}

/// `tags` without any entry equal to `t` (`retain`).
pub open spec fn without(tags: Seq<Seq<char>>, t: Seq<char>) -> Seq<Seq<char>>
    decreases tags.len(),
{
    if tags.len() == 0 {
        tags
    } else if tags.last() == t {
        without(tags.drop_last(), t)
    } else {
        without(tags.drop_last(), t).push(tags.last())
    }
}

/// The tag that marks a procedure demoted to the prune floor.
pub const PRUNE_CANDIDATE_TAG: &'static str = "prune_candidate";

/// A procedure's tags after a verdict, and whether they changed: a champion
/// gains the champion tag; a demoted procedure loses it, and is marked a
/// prune candidate once its salience is at the floor (`at_floor`); any
/// other loses a champion tag it still carries. A demotion always counts as
/// a change (its salience falls too).
pub open spec fn verdict_tags_spec(tags: Seq<Seq<char>>, v: Verdict, at_floor: bool) -> (Seq<Seq<char>>, bool) {
    match v {
        Verdict::Champion => if tags.contains(SKILL_CHAMPION_TAG@) {
            (tags, false)
        } else {
            (tags.push(SKILL_CHAMPION_TAG@), true)
        },
        Verdict::Demote => {
            let kept = without(tags, SKILL_CHAMPION_TAG@);
            if at_floor && !kept.contains(PRUNE_CANDIDATE_TAG@) {
                (kept.push(PRUNE_CANDIDATE_TAG@), true)
            } else {
                (kept, true)
            }
        },
        Verdict::Leave => if tags.contains(SKILL_CHAMPION_TAG@) {
            (without(tags, SKILL_CHAMPION_TAG@), true)
        } else {
            (tags, false)
        },
    }
}

/// Whether a list of strings holds `t`.
pub(crate) fn listed_in(tags: &Vec<String>, t: &str) -> (r: bool)
    ensures
        r == string_views(tags@).contains(t@),
{
    let mut i: usize = 0;
    while i < tags.len()
        invariant
            i <= tags@.len(),
            forall|j: int| 0 <= j < i ==> string_views(tags@)[j] != t@,
        decreases tags@.len() - i,
    {
        if crate::text::str_eq(tags[i].as_str(), t) {
            assert(string_views(tags@)[i as int] == t@);
            return true;
        }
        i = i + 1;
    }
    false
}

/// Copies of `tags` without any entry equal to `t`.
pub(crate) fn retain_other(tags: &Vec<String>, t: &str) -> (r: Vec<String>)
    ensures
        string_views(r@) == without(string_views(tags@), t@),
{
    let mut out: Vec<String> = Vec::new();
    let ghost tv = string_views(tags@);
    let mut k: usize = 0;
    assert(tv.subrange(0, 0) =~= Seq::<Seq<char>>::empty());
    while k < tags.len()
        invariant
            k <= tags@.len(),
            tv == string_views(tags@),
            string_views(out@) == without(tv.subrange(0, k as int), t@),
        decreases tags@.len() - k,
    {
        let ghost before = string_views(out@);
        assert(tv.subrange(0, k + 1).drop_last() =~= tv.subrange(0, k as int));
        if !crate::text::str_eq(tags[k].as_str(), t) {
            out.push(tags[k].clone());
            assert(string_views(out@) =~= before.push(tv[k as int]));
        }
        k = k + 1;
    }
    assert(tv.subrange(0, tags@.len() as int) =~= tv);
    out
}

/// A procedure's tags after a competition verdict, and whether they changed.
pub fn verdict_tags(tags: &Vec<String>, v: Verdict, at_floor: bool) -> (r: (Vec<String>, bool))
    ensures
        (string_views(r.0@), r.1) == verdict_tags_spec(string_views(tags@), v, at_floor),
{
    let champion = listed_in(tags, SKILL_CHAMPION_TAG);
    match v {
        Verdict::Champion => {
            let mut out = prefixed(Vec::new(), tags);
            assert(string_views(out@) =~= string_views(tags@));
            if champion {
                (out, false)
            } else {
                out.push(owned(SKILL_CHAMPION_TAG));
                assert(string_views(out@) =~= string_views(tags@).push(SKILL_CHAMPION_TAG@));
                (out, true)
            }
        },
        Verdict::Demote => {
            let mut kept = retain_other(tags, SKILL_CHAMPION_TAG);
            if at_floor && !listed_in(&kept, PRUNE_CANDIDATE_TAG) {
                let ghost before = string_views(kept@);
                kept.push(owned(PRUNE_CANDIDATE_TAG));
                assert(string_views(kept@) =~= before.push(PRUNE_CANDIDATE_TAG@));
            }
            (kept, true)
        },
        Verdict::Leave => {
            if champion {
                (retain_other(tags, SKILL_CHAMPION_TAG), true)
            } else {
                let out = prefixed(Vec::new(), tags);
                assert(string_views(out@) =~= string_views(tags@));
                (out, false)
            }
        },
    }
}

/// What the pruning phase does with a memory.
pub enum PruneCheck {
    /// Keep it.
    Keep,
    /// Retire it: a procedure demoted to the prune floor.
    RetireDemoted,
    /// Retire it if no live link touches it: a stale, low-salience sensory
    /// memory.
    RetireIfIsolated,
}

/// How the pruning phase judges a memory created at `created_at` (seconds)
/// against the staleness `cutoff`; `low_salience` says whether its salience
/// is at most the pruning ceiling.
pub open spec fn prune_check_spec(
    created_at: i64,
    cutoff: i64,
    tags: Seq<Seq<char>>,
    layer: MemoryLayer,
    low_salience: bool,
) -> PruneCheck {
    if created_at > cutoff {
        PruneCheck::Keep
    } else if tags.contains(PRUNE_CANDIDATE_TAG@) {
        PruneCheck::RetireDemoted
    } else if layer == MemoryLayer::Sensory && low_salience {
        PruneCheck::RetireIfIsolated
    } else {
        PruneCheck::Keep
    }
}

/// How the pruning phase judges a memory.
pub fn prune_check(created_at: i64, cutoff: i64, tags: &Vec<String>, layer: MemoryLayer, low_salience: bool) -> (r:
    PruneCheck)
    ensures
        r == prune_check_spec(created_at, cutoff, string_views(tags@), layer, low_salience),
{
    if created_at > cutoff {
        PruneCheck::Keep
    } else if listed_in(tags, PRUNE_CANDIDATE_TAG) {
        PruneCheck::RetireDemoted
    } else if layer == MemoryLayer::Sensory && low_salience {
        PruneCheck::RetireIfIsolated
    } else {
        PruneCheck::Keep
    }
}

/// Whether a REM reply says the two memories are connected (`connected`
/// is `true`; anything else, or nothing, is no).
pub open spec fn rem_connected_spec(v: JsonValue) -> bool {
    match v {
        JsonValue::Object(o) => match field_spec(o@, "connected"@) {
            Some(JsonValue::Bool(b)) => b,
            _ => false,
        },
        _ => false,
    }
}

/// The link type a name denotes in a REM reply: `causal`, `supports` or
/// `contradicts`, and semantic for any other name.
pub open spec fn link_type_of_name(name: Seq<char>) -> LinkType {
    if name == "causal"@ {
        LinkType::Causal
    } else if name == "supports"@ {
        LinkType::Supports
    } else if name == "contradicts"@ {
        LinkType::Contradicts
    } else {
        LinkType::Semantic
    }
}

/// The link type a REM reply names (semantic when it names none).
pub open spec fn rem_link_type_spec(v: JsonValue) -> LinkType {
    match v {
        JsonValue::Object(o) => match field_spec(o@, "link_type"@) {
            Some(JsonValue::Str(s)) => link_type_of_name(s@),
            _ => LinkType::Semantic,
        },
        _ => LinkType::Semantic,
    }
}

fn link_type_named(name: &str) -> (r: LinkType)
    ensures
        r == link_type_of_name(name@),
{
    let c = chars_of(name);
    if crate::text::eq_lit(c.as_slice(), "causal") {
        LinkType::Causal
    } else if crate::text::eq_lit(c.as_slice(), "supports") {
        LinkType::Supports
    } else if crate::text::eq_lit(c.as_slice(), "contradicts") {
        LinkType::Contradicts
    } else {
        LinkType::Semantic
    }
}

/// Whether a REM reply reports a connection, and of which link type.
pub fn rem_verdict(v: &JsonValue) -> (r: (bool, LinkType))
    ensures
        r.0 == rem_connected_spec(*v),
        r.1 == rem_link_type_spec(*v),
{
    proof {
        reveal_strlit("connected");
        reveal_strlit("link_type");
    }
    match v {
        JsonValue::Object(o) => {
            let connected = match field(o, "connected") {
                Some(JsonValue::Bool(b)) => *b,
                _ => false,
            };
            let kind = match field(o, "link_type") {
                Some(JsonValue::Str(s)) => link_type_named(s.as_str()),
                _ => LinkType::Semantic,
            };
            (connected, kind)
        },
        _ => (false, LinkType::Semantic),
    }
}

/// The most bytes of a memory a REM prompt shows.
pub const REM_EXCERPT_BYTES: usize = 300;

/// The longest prefix of `s` whose UTF-8 encoding fits in `budget` bytes.
pub open spec fn byte_prefix(s: Seq<char>, budget: int) -> Seq<char>
    decreases s.len(),
{
    if s.len() == 0 {
        s
    } else if vstd::utf8::encode_scalar(s[0] as u32).len() <= budget {
        seq![s[0]] + byte_prefix(s.drop_first(), budget - vstd::utf8::encode_scalar(s[0] as u32).len())
    } else {
        seq![]
    }
}

/// The part of a memory a REM prompt shows: its first `REM_EXCERPT_BYTES`
/// bytes of UTF-8, cut back to the last whole character.
pub open spec fn rem_excerpt_spec(s: Seq<char>) -> Seq<char> {
    byte_prefix(s, REM_EXCERPT_BYTES as int)
}

/// The part of a memory a REM prompt shows.
pub fn rem_excerpt(s: &str) -> (r: String)
    ensures
        r@ == rem_excerpt_spec(s@),
{
    let cs = chars_of(s);
    let mut i: usize = 0;
    let mut n: usize = 0;
    assert(cs@.subrange(0, 0) + byte_prefix(cs@.subrange(0, cs@.len() as int), REM_EXCERPT_BYTES as int)
        =~= byte_prefix(cs@, REM_EXCERPT_BYTES as int)) by {
        assert(cs@.subrange(0, cs@.len() as int) =~= cs@);
        assert(cs@.subrange(0, 0) =~= Seq::<char>::empty());
    }
    while i < cs.len()
        invariant
            i <= cs@.len(),
            n <= REM_EXCERPT_BYTES,
            byte_prefix(cs@, REM_EXCERPT_BYTES as int) == cs@.subrange(0, i as int) + byte_prefix(
                cs@.subrange(i as int, cs@.len() as int),
                REM_EXCERPT_BYTES - n,
            ),
        ensures
            i <= cs@.len(),
            byte_prefix(cs@, REM_EXCERPT_BYTES as int) == cs@.subrange(0, i as int),
        decreases cs@.len() - i,
    {
        let w = utf8_width(cs[i]);
        let ghost t = cs@.subrange(i as int, cs@.len() as int);
        assert(t[0] == cs@[i as int]);
        if w > REM_EXCERPT_BYTES - n {
            assert(byte_prefix(t, REM_EXCERPT_BYTES - n) =~= Seq::<char>::empty());
            assert(cs@.subrange(0, i as int) + Seq::<char>::empty() =~= cs@.subrange(0, i as int));
            break;
        }
        assert(t.drop_first() =~= cs@.subrange(i + 1, cs@.len() as int));
        assert(cs@.subrange(0, i as int) + (seq![cs@[i as int]] + byte_prefix(
            t.drop_first(),
            REM_EXCERPT_BYTES - n - w,
        )) =~= cs@.subrange(0, i + 1) + byte_prefix(t.drop_first(), REM_EXCERPT_BYTES - n - w));
        n = n + w;
        i = i + 1;
    }
    let head = slice_vec(cs.as_slice(), 0, i);
    string_of(head.as_slice())
}

/// The REM prompt for two memories.
pub fn rem_prompt(a: &str, b: &str) -> (r: String)
    ensures
        r@ == replace_all(
            replace_all(PROMPT_REM_CONNECT@, "{memory_a}"@, rem_excerpt_spec(a@)),
            "{memory_b}"@,
            rem_excerpt_spec(b@),
        ),
{
    let ea = rem_excerpt(a);
    let eb = rem_excerpt(b);
    let first = fill(PROMPT_REM_CONNECT, "{memory_a}", ea.as_str());
    fill(first.as_str(), "{memory_b}", eb.as_str())
}

} // verus!
