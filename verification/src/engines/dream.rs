//! DreamEngine: the offline consolidation cycle's budget and its pure
//! selection rules over procedures (structural tags, niches, pending
//! variants and merges, champions), plus retention caps and the cleaning of
//! model replies.
use vstd::prelude::*;
use vstd::string::StrSliceExecFns;
use crate::numtext::{parse_usize, parse_usize_spec};
use crate::text::{
    chars_of, contains, eq_lit, has_prefix, join, join_chars, lines, split_lines, starts_with,
    str_views, string_of, take_chars, trim, trim_vec, views,
};

verus! {

/// Hard cap on the LLM calls of one dream cycle.
pub const MAX_LLM_CALLS: usize = 20;

/// Per-phase LLM budgets (each further capped by the cycle's budget).
pub const LLM_BUDGET_PATTERN: usize = 12;
pub const LLM_BUDGET_SCHEMA: usize = 4;
pub const LLM_BUDGET_REM: usize = 4;
pub const LLM_BUDGET_VARIATION: usize = 4;

/// Smallest tag cluster pattern extraction works on.
pub const CLUSTER_MIN_SIZE: usize = 3;

/// Smallest procedure cluster skill distillation works on.
pub const SKILL_CLUSTER_MIN_SIZE: usize = 2;

/// Memories sampled, and pairs checked, by REM recombination.
pub const REM_SAMPLE_SIZE: usize = 20;
pub const REM_PAIR_CHECKS: usize = 10;

/// Age, in hours, after which pruning considers a memory.
pub const PRUNING_MIN_AGE_HOURS: i64 = 48;

/// Age, in hours, after which an open episode is closed.
pub const EPISODE_AUTO_CLOSE_HOURS: i64 = 24;

/// Contenders a competition niche needs to hold a contest.
pub const COMPETITION_MIN_NICHE: usize = 2;

/// Graded uses a procedure needs before it can win or lose a contest.
pub const COMPETITION_MIN_GRADED_USES: u32 = 2;

/// The tag stamped on the fittest procedure of a niche.
pub const SKILL_CHAMPION_TAG: &'static str = "skill_champion";

/// The engine that runs dream cycles with an optional model API key.
pub struct DreamEngine {
    anthropic_key: Option<String>,
}

impl DreamEngine {
    /// The key the engine holds, as a plain value.
    pub closed spec fn key(&self) -> Option<Seq<char>> {
        match self.anthropic_key {
            Some(k) => Some(k@),
            None => None,
        }
    }

    /// An engine holding `anthropic_key`.
    pub fn new(anthropic_key: Option<String>) -> (r: Self)
        ensures
            r.key() == (match anthropic_key {
                Some(k) => Some(k@),
                None => None::<Seq<char>>,
            }),
    {
        DreamEngine { anthropic_key }
    }

    /// The API key the LLM-assisted phases use.
    pub fn api_key(&self) -> (r: Option<&String>)
        ensures
            match r {
                Some(k) => self.key() == Some(k@),
                None => self.key() is None,
            },
    {
        match &self.anthropic_key {
            Some(k) => Some(k),
            None => None,
        }
    }
}

/// The LLM budget of one dream cycle: the calls made so far, and the cap
/// for the whole cycle.
pub struct LlmBudget {
    used: usize,
    overall: usize,
}

impl LlmBudget {
    pub closed spec fn used_spec(&self) -> nat {
        self.used as nat
    }

    pub closed spec fn overall_spec(&self) -> nat {
        self.overall as nat
    }

    /// The calls made never exceed the cycle's cap, nor the cap its maximum.
    pub open spec fn wf(&self) -> bool {
        self.used_spec() <= self.overall_spec() <= MAX_LLM_CALLS
    }

    /// The budget of a cycle asked to make at most `max_llm_calls` calls:
    /// that many, but never more than `MAX_LLM_CALLS`.
    pub fn new(max_llm_calls: usize) -> (r: Self)
        ensures
            r.wf(),
            r.used_spec() == 0,
            r.overall_spec() == (if max_llm_calls < MAX_LLM_CALLS {
                max_llm_calls
            } else {
                MAX_LLM_CALLS
            }),
    {
        let overall = if max_llm_calls < MAX_LLM_CALLS {
            max_llm_calls
        } else {
            MAX_LLM_CALLS
        };
        LlmBudget { used: 0, overall }
    }

    /// Calls made so far.
    pub fn used(&self) -> (r: usize)
        ensures
            r == self.used_spec(),
    {
        self.used
    }

    /// The allowance of a phase whose own cap is `phase_cap`: the smaller of
    /// that cap and the cycle's.
    pub fn phase_allowance(&self, phase_cap: usize) -> (r: usize)
        ensures
            r == (if phase_cap < self.overall_spec() {
                phase_cap as nat
            } else {
                self.overall_spec()
            }),
    {
        if phase_cap < self.overall {
            phase_cap
        } else {
            self.overall
        }
    }

    /// Whether a phase with `remaining` calls left, keeping `reserve` of them
    /// for a later step, may make another call: it must have more than the
    /// reserve left and the cycle must be under its cap.
    pub fn may_call(&self, remaining: usize, reserve: usize) -> (r: bool)
        ensures
            r == (remaining > reserve && self.used_spec() < self.overall_spec()),
    {
        remaining > reserve && self.used < self.overall
    }

    /// Record one call, charged to the cycle and to the phase's remaining
    /// allowance.
    pub fn record_call(&mut self, remaining: &mut usize)
        requires
            old(self).wf(),
            old(self).used_spec() < old(self).overall_spec(),
            *old(remaining) > 0,
        ensures
            final(self).wf(),
            final(self).used_spec() == old(self).used_spec() + 1,
            final(self).overall_spec() == old(self).overall_spec(),
            *final(remaining) == *old(remaining) - 1,
    {
        self.used = self.used + 1;
        *remaining = *remaining - 1;
    }
}

/// However calls are recorded, a cycle never makes more than the budget it
/// was asked for, nor more than `MAX_LLM_CALLS`.
pub proof fn law_llm_calls_within_budget(b: LlmBudget, requested: nat)
    requires
        b.wf(),
        b.overall_spec() <= requested,
    ensures
        b.used_spec() <= requested,
        b.used_spec() <= MAX_LLM_CALLS,
{
}

/// Retention caps of the pre-dream sweep (0 keeps a table forever).
#[derive(Debug, Clone, Copy, PartialEq, Eq, Structural)]
pub struct RetentionCaps {
    pub versions_per_memory: usize,
    pub dream_reports: usize,
    pub audit_rows: usize,
}

/// A setting parsed as a count (trimmed), or the default when it is unset
/// or not a count.
pub open spec fn knob_spec(v: Option<Seq<char>>, default: usize) -> usize {
    match v {
        Some(s) => match parse_usize_spec(trim(s)) {
            Some(n) => n,
            None => default,
        },
        None => default,
    }
}

/// A setting parsed as a count, or the default.
fn knob(v: Option<&str>, default: usize) -> (r: usize)
    ensures
        r == knob_spec(
            match v {
                Some(s) => Some(s@),
                None => None,
            },
            default,
        ),
{
    match v {
        Some(s) => {
            let c = chars_of(s);
            let t = trim_vec(c.as_slice());
            match parse_usize(t.as_slice()) {
                Some(n) => n,
                None => default,
            }
        },
        None => default,
    }
}

impl RetentionCaps {
    /// The default caps: ten versions per memory, ninety dream reports,
    /// twenty thousand audit rows.
    pub fn default_caps() -> (r: Self)
        ensures
            r.versions_per_memory == 10,
            r.dream_reports == 90,
            r.audit_rows == 20000,
    {
        RetentionCaps { versions_per_memory: 10, dream_reports: 90, audit_rows: 20000 }
    }

    /// The caps given the settings `CEREBRO_RETAIN_VERSIONS`,
    /// `CEREBRO_RETAIN_DREAM_REPORTS` and `CEREBRO_RETAIN_AUDIT_ROWS` (each
    /// `None` when unset): an explicit count wins, including 0; unset or
    /// unparsable settings keep the default.
    pub fn from_settings(versions: Option<&str>, reports: Option<&str>, audit: Option<&str>) -> (r:
        Self)
        ensures
            r.versions_per_memory == knob_spec(
                match versions {
                    Some(s) => Some(s@),
                    None => None,
                },
                10,
            ),
            r.dream_reports == knob_spec(
                match reports {
                    Some(s) => Some(s@),
                    None => None,
                },
                90,
            ),
            r.audit_rows == knob_spec(
                match audit {
                    Some(s) => Some(s@),
                    None => None,
                },
                20000,
            ),
    {
        RetentionCaps {
            versions_per_memory: knob(versions, 10),
            dream_reports: knob(reports, 90),
            audit_rows: knob(audit, 20000),
        }
    }
}


/// Role and bookkeeping tags, as opposed to topics.
pub open spec fn structural_names() -> Seq<Seq<char>> {
    seq![
        "procedure"@, "dream_extracted"@, "schema"@, "skill"@, "dream_formed"@,
        "dream_distilled"@, "dream_mutated"@, "dream_merged"@, "skill_champion"@,
        "prune_candidate"@, "session_note"@,
    ]
}

/// Prefixes of bookkeeping tags.
pub open spec fn structural_prefixes() -> Seq<Seq<char>> {
    seq!["support_count:"@, "priority:"@, "session_type:"@, "agent:"@, "source:"@]
}

/// A tag that marks a memory's role or bookkeeping rather than its topic.
pub open spec fn is_structural_spec(tag: Seq<char>) -> bool {
    structural_names().contains(tag) || exists|k: int|
        0 <= k < structural_prefixes().len() && starts_with(tag, #[trigger] structural_prefixes()[k])
}

/// True for tags that mark a memory's role or bookkeeping rather than its
/// topic; they never define clusters or niches.
pub fn is_structural_tag(tag: &str) -> (r: bool)
    ensures
        r == is_structural_spec(tag@),
{
    let t = chars_of(tag);
    let names = [
        "procedure", "dream_extracted", "schema", "skill", "dream_formed",
        "dream_distilled", "dream_mutated", "dream_merged", "skill_champion",
        "prune_candidate", "session_note",
    ];
    let prefixes = ["support_count:", "priority:", "session_type:", "agent:", "source:"];
    assert(str_views(names@) =~= structural_names());
    assert(str_views(prefixes@) =~= structural_prefixes());
    if crate::text::in_list(t.as_slice(), &names) {
        return true;
    }
    let mut k: usize = 0;
    while k < prefixes.len()
        invariant
            k <= prefixes.len(),
            t@ == tag@,
            str_views(prefixes@) == structural_prefixes(),
            forall|j: int| 0 <= j < k ==> !starts_with(tag@, #[trigger] structural_prefixes()[j]),
        decreases prefixes.len() - k,
    {
        let p = chars_of(prefixes[k]);
        assert(str_views(prefixes@)[k as int] == prefixes@[k as int]@);
        if has_prefix(t.as_slice(), p.as_slice()) {
            return true;
        }
        k = k + 1;
    }
    false
}

/// At most the first `max_chars` characters of `s`, cut on a character
/// boundary.
pub fn truncate_chars(s: &str, max_chars: usize) -> (r: &str)
    ensures
        r@ == take_chars(s@, max_chars as int),
{
    let n = s.unicode_len();
    if max_chars < n {
        s.substring_char(0, max_chars)
    } else {
        s
    }
}

/// Whether two procedure texts share their first 40 characters (taken
/// whole when shorter): a cheap "effectively the same procedure" test.
pub fn same_prefix(a: &str, b: &str) -> (r: bool)
    ensures
        r == (take_chars(a@, 40) == take_chars(b@, 40)),
{
    let x = truncate_chars(a, 40);
    let y = truncate_chars(b, 40);
    crate::text::str_eq(x, y)
}

/// Whether `tags` holds `t`.
pub open spec fn has_tag(tags: Seq<String>, t: Seq<char>) -> bool {
    exists|i: int| 0 <= i < tags.len() && #[trigger] tags[i]@ == t
}

/// Whether `tags` holds `t`.
pub fn tag_present(tags: &[String], t: &str) -> (r: bool)
    ensures
        r == has_tag(tags@, t@),
{
    let mut i: usize = 0;
    while i < tags.len()
        invariant
            i <= tags.len(),
            forall|j: int| 0 <= j < i ==> tags@[j]@ != t@,
        decreases tags.len() - i,
    {
        if crate::text::str_eq(tags[i].as_str(), t) {
            return true;
        }
        i = i + 1;
    }
    false
}

/// True when the tags mark the champion of at least one niche.
pub fn is_skill_champion(tags: &[String]) -> (r: bool)
    ensures
        r == has_tag(tags@, SKILL_CHAMPION_TAG@),
{
    tag_present(tags, SKILL_CHAMPION_TAG)
}

/// A procedure's win/loss ledger as recorded: the success and failure
/// counts, each cut to 32 bits; none when the procedure has no ledger or
/// both counts are zero.
pub open spec fn outcome_stats_spec(ledger: Option<(u64, u64)>) -> Option<(u32, u32)> {
    match ledger {
        Some((s, f)) => {
            let succ32 = (s % 0x1_0000_0000) as u32;
            let fail32 = (f % 0x1_0000_0000) as u32;
            if succ32 + fail32 == 0 {
                None
            } else {
                Some((succ32, fail32))
            }
        },
        None => None,
    }
}

/// A procedure's ledger as `(successes, failures)`, or `None` when it has
/// never been graded.
pub fn outcome_stats(ledger: Option<(u64, u64)>) -> (r: Option<(u32, u32)>)
    ensures
        r == outcome_stats_spec(ledger),
{
    match ledger {
        Some((s, f)) => {
            let succ32 = (s % 0x1_0000_0000) as u32;
            let fail32 = (f % 0x1_0000_0000) as u32;
            if succ32 == 0 && fail32 == 0 {
                None
            } else {
                Some((succ32, fail32))
            }
        },
        None => None,
    }
}

/// What the selection rules read of a stored procedure.
pub struct ProcedureView {
    pub id: String,
    pub content: String,
    pub tags: Vec<String>,
    /// The graded ledger (`outcome_stats`), `None` while ungraded.
    pub outcomes: Option<(u32, u32)>,
    /// The ids of the procedures it was derived from.
    pub derived_from: Vec<String>,
}

/// Some procedure is an ungraded `dream_mutated` variant derived from
/// `parent_id`.
pub open spec fn pending_variant_spec(procs: Seq<ProcedureView>, parent_id: Seq<char>) -> bool {
    exists|i: int|
        0 <= i < procs.len() && (#[trigger] procs[i]).outcomes is None && has_tag(
            procs[i].tags@,
            "dream_mutated"@,
        ) && has_tag(procs[i].derived_from@, parent_id)
}

/// True if some procedure is an untested variant of `parent_id`, so the
/// variation phase never stacks a second untested variant on a parent.
pub fn has_pending_variant(procedures: &[ProcedureView], parent_id: &str) -> (r: bool)
    ensures
        r == pending_variant_spec(procedures@, parent_id@),
{
    let mut i: usize = 0;
    while i < procedures.len()
        invariant
            i <= procedures.len(),
            forall|j: int|
                0 <= j < i ==> !((#[trigger] procedures@[j]).outcomes is None && has_tag(
                    procedures@[j].tags@,
                    "dream_mutated"@,
                ) && has_tag(procedures@[j].derived_from@, parent_id@)),
        decreases procedures.len() - i,
    {
        let n = &procedures[i];
        if n.outcomes.is_none() && tag_present(n.tags.as_slice(), "dream_mutated") && tag_present(
            n.derived_from.as_slice(),
            parent_id,
        ) {
            return true;
        }
        i = i + 1;
    }
    false
}

/// Some procedure is an ungraded `dream_merged` hybrid in the niche
/// `niche_tag`.
pub open spec fn pending_merge_spec(procs: Seq<ProcedureView>, niche_tag: Seq<char>) -> bool {
    exists|i: int|
        0 <= i < procs.len() && (#[trigger] procs[i]).outcomes is None && has_tag(
            procs[i].tags@,
            "dream_merged"@,
        ) && has_tag(procs[i].tags@, niche_tag)
}

/// True if the niche already holds an untested merged hybrid, so the merge
/// pass does not recombine it again before that hybrid is tried.
pub fn has_pending_merge(procedures: &[ProcedureView], niche_tag: &str) -> (r: bool)
    ensures
        r == pending_merge_spec(procedures@, niche_tag@),
{
    let mut i: usize = 0;
    while i < procedures.len()
        invariant
            i <= procedures.len(),
            forall|j: int|
                0 <= j < i ==> !((#[trigger] procedures@[j]).outcomes is None && has_tag(
                    procedures@[j].tags@,
                    "dream_merged"@,
                ) && has_tag(procedures@[j].tags@, niche_tag@)),
        decreases procedures.len() - i,
    {
        let n = &procedures[i];
        if n.outcomes.is_none() && tag_present(n.tags.as_slice(), "dream_merged") && tag_present(
            n.tags.as_slice(),
            niche_tag,
        ) {
            return true;
        }
        i = i + 1;
    }
    false
}

/// Lines of `ls` that are not code fences (trimmed, they do not begin with
/// three backticks).
pub open spec fn unfenced(ls: Seq<Seq<char>>) -> Seq<Seq<char>>
    decreases ls.len(),
{
    if ls.len() == 0 {
        seq![]
    } else if starts_with(trim(ls.last()), "```"@) {
        unfenced(ls.drop_last())
    } else {
        unfenced(ls.drop_last()).push(ls.last())
    }
}

/// A model reply without markdown code fences: trimmed; when it holds three
/// backticks, its fence lines are dropped and the rest rejoined and trimmed.
pub open spec fn strip_fences_spec(text: Seq<char>) -> Seq<char> {
    let cleaned = trim(text);
    if crate::text::has_sub(cleaned, "```"@) {
        trim(join(unfenced(lines(cleaned)), seq!['\n']))
    } else {
        cleaned
    }
}

/// Strip markdown code fences from a model reply.
pub fn strip_fences(text: &str) -> (r: String)
    ensures
        r@ == strip_fences_spec(text@),
{
    let c = chars_of(text);
    let cleaned = trim_vec(c.as_slice());
    let fence = chars_of("```");
    if !contains(cleaned.as_slice(), fence.as_slice()) {
        return string_of(cleaned.as_slice());
    }
    let ls = split_lines(cleaned.as_slice());
    let mut kept: Vec<Vec<char>> = Vec::new();
    let mut k: usize = 0;
    while k < ls.len()
        invariant
            k <= ls.len(),
            fence@ == "```"@,
            views(kept@) == unfenced(views(ls@).subrange(0, k as int)),
        decreases ls.len() - k,
    {
        let ghost sub = views(ls@).subrange(0, k + 1);
        assert(sub.drop_last() =~= views(ls@).subrange(0, k as int));
        assert(sub.last() == ls@[k as int]@);
        let t = trim_vec(ls[k].as_slice());
        if !has_prefix(t.as_slice(), fence.as_slice()) {
            let ghost before = views(kept@);
            kept.push(ls[k].clone());
            assert(views(kept@) =~= before.push(ls@[k as int]@));
        }
        k = k + 1;
    }
    assert(views(ls@).subrange(0, ls.len() as int) =~= views(ls@));
    let nl = ['\n'];
    assert(nl@ =~= seq!['\n']);
    let joined = join_chars(&kept, &nl);
    let out = trim_vec(joined.as_slice());
    string_of(out.as_slice())
}

/// The last position of `c` in `s`.
pub open spec fn rfind_char(s: Seq<char>, c: char) -> Option<int>
    decreases s.len(),
{
    if s.len() == 0 {
        None
    } else if s.last() == c {
        Some(s.len() - 1)
    } else {
        rfind_char(s.drop_last(), c)
    }
}

fn last_position_of(s: &[char], c: char) -> (r: Option<usize>)
    ensures
        match r {
            Some(i) => i < s.len() && rfind_char(s@, c) == Some(i as int),
            None => rfind_char(s@, c) is None,
        },
{
    let mut i = s.len();
    assert(s@.subrange(0, i as int) =~= s@);
    while i > 0
        invariant
            i <= s@.len(),
            rfind_char(s@, c) == rfind_char(s@.subrange(0, i as int), c),
        decreases i,
    {
        let ghost pre = s@.subrange(0, i as int);
        if s[i - 1] == c {
            return Some(i - 1);
        }
        assert(pre.drop_last() =~= s@.subrange(0, i - 1));
        i = i - 1;
    }
    None
}

/// The part of a model reply that may hold a JSON value when the whole of it
/// does not parse: from the first `open` to the last `close`, both included,
/// when the first comes before the last.
pub open spec fn json_span_spec(s: Seq<char>, open: char, close: char) -> Option<Seq<char>> {
    match (crate::text::find_char(s, open), rfind_char(s, close)) {
        (Some(a), Some(b)) => if b <= a {
            None
        } else {
            Some(s.subrange(a, b + 1))
        },
        _ => None,
    }
}

/// The text from the first `open` to the last `close` of a model reply.
pub fn json_span(text: &str, open: char, close: char) -> (r: Option<String>)
    ensures
        match r {
            Some(t) => json_span_spec(text@, open, close) == Some(t@),
            None => json_span_spec(text@, open, close) is None,
        },
{
    let c = chars_of(text);
    let a = match crate::text::position_of(c.as_slice(), open) {
        Some(a) => a,
        None => return None,
    };
    let b = match last_position_of(c.as_slice(), close) {
        Some(b) => b,
        None => return None,
    };
    if b <= a {
        return None;
    }
    let part = crate::text::slice_vec(c.as_slice(), a, b + 1);
    Some(string_of(part.as_slice()))
}


/// The tags of each node, as plain values.
pub open spec fn tag_lists(v: Seq<Vec<String>>) -> Seq<Seq<Seq<char>>> {
    v.map_values(|ts: Vec<String>| ts@.map_values(|t: String| t@))
}

/// Every (node index, tag) pair, node by node, tags in order.
pub open spec fn tag_pairs(lists: Seq<Seq<Seq<char>>>) -> Seq<(int, Seq<char>)>
    decreases lists.len(),
{
    if lists.len() == 0 {
        seq![]
    } else {
        let i = lists.len() - 1;
        tag_pairs(lists.drop_last()) + lists.last().map_values(|t: Seq<char>| (i, t))
    }
}

/// The position of the entry for key `k`, if any (the first one).
pub open spec fn key_index(t: Seq<(Seq<char>, Seq<int>)>, k: Seq<char>) -> Option<int>
    decreases t.len(),
{
    if t.len() == 0 {
        None
    } else {
        match key_index(t.drop_last(), k) {
            Some(x) => Some(x),
            None => if t.last().0 == k {
                Some(t.len() - 1)
            } else {
                None
            },
        }
    }
}

/// The table with index `i` appended to key `k`'s entry, or a new entry for
/// `k` at the end.
pub open spec fn table_add(t: Seq<(Seq<char>, Seq<int>)>, k: Seq<char>, i: int) -> Seq<
    (Seq<char>, Seq<int>),
> {
    match key_index(t, k) {
        Some(x) => t.update(x, (k, t[x].1.push(i))),
        None => t.push((k, seq![i])),
    }
}

/// Topical tag → the indices of the nodes carrying it, tags in order of
/// first appearance, indices in node order (once per occurrence).
pub open spec fn tag_table(pairs: Seq<(int, Seq<char>)>) -> Seq<(Seq<char>, Seq<int>)>
    decreases pairs.len(),
{
    if pairs.len() == 0 {
        seq![]
    } else {
        let t = tag_table(pairs.drop_last());
        let p = pairs.last();
        if is_structural_spec(p.1) {
            t
        } else {
            table_add(t, p.1, p.0)
        }
    }
}

/// The entries of a tag map, as plain values.
pub open spec fn entry_views(v: Seq<(String, Vec<usize>)>) -> Seq<(Seq<char>, Seq<int>)> {
    v.map_values(|e: (String, Vec<usize>)| (e.0@, e.1@.map_values(|u: usize| u as int)))
}

/// A key found in a prefix of the table is found at the same place in it.
proof fn lemma_key_index_prefix(t: Seq<(Seq<char>, Seq<int>)>, k: Seq<char>, m: int)
    requires
        0 <= m <= t.len(),
        key_index(t.subrange(0, m), k) is Some,
    ensures
        key_index(t, k) == key_index(t.subrange(0, m), k),
    decreases t.len() - m,
{
    if m < t.len() {
        let p1 = t.subrange(0, m + 1);
        assert(p1.drop_last() =~= t.subrange(0, m));
        lemma_key_index_prefix(t, k, m + 1);
    } else {
        assert(t.subrange(0, m) =~= t);
    }
}

/// The entry of the tag map holding `k`.
fn find_key(out: &Vec<(String, Vec<usize>)>, k: &String) -> (r: Option<usize>)
    ensures
        match r {
            Some(x) => key_index(entry_views(out@), k@) == Some(x as int) && x < out@.len(),
            None => key_index(entry_views(out@), k@) is None,
        },
{
    let ghost t = entry_views(out@);
    let mut m: usize = 0;
    assert(t.subrange(0, 0) =~= Seq::<(Seq<char>, Seq<int>)>::empty());
    while m < out.len()
        invariant
            m <= out@.len(),
            t == entry_views(out@),
            key_index(t.subrange(0, m as int), k@) is None,
        decreases out@.len() - m,
    {
        let ghost p1 = t.subrange(0, m + 1);
        assert(p1.drop_last() =~= t.subrange(0, m as int));
        assert(p1.last().0 == out@[m as int].0@);
        if crate::text::str_eq(out[m].0.as_str(), k.as_str()) {
            proof {
                lemma_key_index_prefix(t, k@, m + 1);
            }
            return Some(m);
        }
        m = m + 1;
    }
    assert(t.subrange(0, m as int) =~= t);
    None
}

/// Topical tag → indices of the nodes carrying it, skipping structural and
/// bookkeeping tags, so clusters form on subject matter.
pub fn topical_tag_map(tags: &Vec<Vec<String>>) -> (r: Vec<(String, Vec<usize>)>)
    ensures
        entry_views(r@) == tag_table(tag_pairs(tag_lists(tags@))),
{
    let ghost lists = tag_lists(tags@);
    let mut out: Vec<(String, Vec<usize>)> = Vec::new();
    let mut i: usize = 0;
    assert(entry_views(out@) =~= Seq::<(Seq<char>, Seq<int>)>::empty());
    assert(lists.subrange(0, 0) =~= Seq::<Seq<Seq<char>>>::empty());
    while i < tags.len()
        invariant
            i <= tags@.len(),
            lists == tag_lists(tags@),
            entry_views(out@) == tag_table(tag_pairs(lists.subrange(0, i as int))),
        decreases tags@.len() - i,
    {
        let node = &tags[i];
        let ghost before = tag_pairs(lists.subrange(0, i as int));
        let ghost row = lists[i as int];
        assert(row == node@.map_values(|t: String| t@));
        let mut j: usize = 0;
        assert(row.subrange(0, 0).map_values(|t: Seq<char>| (i as int, t)) =~= Seq::<(int, Seq<char>)>::empty());
        assert(before + Seq::<(int, Seq<char>)>::empty() =~= before);
        while j < node.len()
            invariant
                i < tags@.len(),
                j <= node@.len(),
                node@ == tags@[i as int]@,
                row == node@.map_values(|t: String| t@),
                entry_views(out@) == tag_table(
                    before + row.subrange(0, j as int).map_values(|t: Seq<char>| (i as int, t)),
                ),
            decreases node@.len() - j,
        {
            let t = &node[j];
            let ghost pre = before + row.subrange(0, j as int).map_values(|x: Seq<char>| (i as int, x));
            let ghost nxt = before + row.subrange(0, j + 1).map_values(|x: Seq<char>| (i as int, x));
            assert(nxt.drop_last() =~= pre);
            assert(nxt.last() == (i as int, t@));
            if !is_structural_tag(t.as_str()) {
                let ghost tv = entry_views(out@);
                match find_key(&out, t) {
                    Some(x) => {
                        let mut v = out[x].1.clone();
                        assert(v@ =~= out@[x as int].1@);
                        v.push(i);
                        assert(v@.map_values(|u: usize| u as int) =~= tv[x as int].1.push(i as int));
                        let key = t.clone();
                        out.set(x, (key, v));
                        assert(entry_views(out@) =~= tv.update(x as int, (t@, tv[x as int].1.push(i as int))));
                    },
                    None => {
                        let mut v: Vec<usize> = Vec::new();
                        v.push(i);
                        assert(v@.map_values(|u: usize| u as int) =~= seq![i as int]);
                        out.push((t.clone(), v));
                        assert(entry_views(out@) =~= tv.push((t@, seq![i as int])));
                    },
                }
            }
            j = j + 1;
        }
        proof {
            let sub1 = lists.subrange(0, i + 1);
            assert(sub1.drop_last() =~= lists.subrange(0, i as int));
            assert(sub1.last() == row);
            assert(row.subrange(0, node@.len() as int) =~= row);
            assert(tag_pairs(sub1) == before + row.map_values(|t: Seq<char>| (i as int, t)));
        }
        i = i + 1;
    }
    assert(lists.subrange(0, tags@.len() as int) =~= lists);
    out
}

} // verus!
