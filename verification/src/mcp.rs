//! Helpers of the tool-call surface: error codes, audit rows, tag and
//! priority normalisation, outcome ledgers and tags, owner and visibility
//! edits, intention, session and message tags, procedure and schema lookups,
//! and the framing of stdin input.
use vstd::prelude::*;
use vstd::string::StrSliceExecFns;
use crate::text::{
    any_sub, ascii_lower_seq, ascii_lowercase, chars_of, concat, contains, eq_lit, lowercase,
    string_of, take_chars, has_prefix, starts_with, to_lowercase, to_uppercase, trim, trim_vec, uppercase,
};
use crate::types::{AgentId, Visibility, VisibilityScope, opt_agent};

verus! {

/// JSON-RPC code for a method that is not implemented.
pub const METHOD_NOT_FOUND: i64 = -32601;

/// JSON-RPC code for invalid parameters.
pub const INVALID_PARAMS: i64 = -32602;

/// JSON-RPC code for an internal error.
pub const INTERNAL_ERROR: i64 = -32603;

/// The JSON-RPC code for a handler's error message: "not implemented"
/// means the method is missing, "required" means bad parameters (both
/// matched with ASCII case ignored), anything else is internal.
pub open spec fn error_code_spec(message: Seq<char>) -> i64 {
    let m = ascii_lower_seq(message);
    if crate::text::has_sub(m, "not implemented"@) {
        METHOD_NOT_FOUND
    } else if crate::text::has_sub(m, "required"@) {
        INVALID_PARAMS
    } else {
        INTERNAL_ERROR
    }
}

/// Map a handler error message to a JSON-RPC error code.
pub fn error_code(message: &str) -> (r: i64)
    ensures
        r == error_code_spec(message@),
{
    let c = chars_of(message);
    let m = ascii_lowercase(c.as_slice());
    let ni = chars_of("not implemented");
    let rq = chars_of("required");
    if contains(m.as_slice(), ni.as_slice()) {
        METHOD_NOT_FOUND
    } else if contains(m.as_slice(), rq.as_slice()) {
        INVALID_PARAMS
    } else {
        INTERNAL_ERROR
    }
}

/// At most `max_chars` characters of `s`, with an ellipsis appended when
/// something was cut.
pub fn truncate_block(s: &str, max_chars: usize) -> (r: String)
    ensures
        r@ == (if max_chars < s@.len() {
            s@.subrange(0, max_chars as int).push('…')
        } else {
            s@
        }),
{
    let c = chars_of(s);
    if max_chars < c.len() {
        let mut h = crate::text::slice_vec(c.as_slice(), 0, max_chars);
        h.push('…');
        string_of(h.as_slice())
    } else {
        s.to_string()
    }
}

/// A tag separator folded to `-`.
pub open spec fn fold_separator(c: char) -> char {
    if c == '_' || c == ' ' {
        '-'
    } else {
        c
    }
}

/// Canonical form of a tag for lookups: trimmed, lower-cased, with `_` and
/// space folded to `-`.
pub open spec fn norm_tag_spec(t: Seq<char>) -> Seq<char> {
    lowercase(trim(t)).map_values(|c: char| fold_separator(c))
}

/// Canonical form of a tag for procedure lookups.
pub fn norm_tag(t: &str) -> (r: String)
    ensures
        r@ == norm_tag_spec(t@),
{
    let c = chars_of(t);
    let tr = string_of(trim_vec(c.as_slice()).as_slice());
    let l = to_lowercase(tr.as_str());
    let mut v = chars_of(l.as_str());
    let ghost lv = v@;
    let mut i: usize = 0;
    while i < v.len()
        invariant
            i <= v.len(),
            v@.len() == lv.len(),
            forall|j: int| 0 <= j < i ==> v@[j] == fold_separator(lv[j]),
            forall|j: int| i <= j < v@.len() ==> v@[j] == lv[j],
        decreases v.len() - i,
    {
        if v[i] == '_' || v[i] == ' ' {
            v.set(i, '-');
        }
        i = i + 1;
    }
    assert(v@ =~= lv.map_values(|c: char| fold_separator(c)));
    string_of(v.as_slice())
}

/// Canonical session priority: upper case.
pub fn normalize_priority(p: &str) -> (r: String)
    ensures
        r@ == uppercase(p@),
{
    to_uppercase(p)
}

/// The scope of a tool call: the named agent's when `agent_id` is a
/// non-empty string, else the unrestricted scope.
pub fn agent_scope(agent_id: Option<&str>) -> (r: VisibilityScope)
    ensures
        !r.shared_only,
        opt_agent(r.agent_id) == (match agent_id {
            Some(a) => if a@.len() > 0 {
                Some(a@)
            } else {
                None
            },
            None => None,
        }),
{
    match agent_id {
        Some(a) => {
            if !a.is_empty() {
                VisibilityScope::for_agent(AgentId(a.to_string()))
            } else {
                VisibilityScope::global()
            }
        },
        None => VisibilityScope::global(),
    }
}

/// The tools that write an audit row.
pub open spec fn mutating_tools() -> Seq<Seq<char>> {
    seq![
        "remember"@, "memory_store"@, "store_procedure"@, "store_intention"@,
        "resolve_intention"@, "session_save"@, "update_memory"@, "delete_memory"@,
        "restore_memory"@, "restore_version"@, "purge_memory"@, "purge_all_deleted"@,
        "bulk_delete"@, "share_memory"@, "associate"@, "create_schema"@,
        "episode_start"@, "episode_add_step"@, "episode_end"@,
        "record_procedure_outcome"@, "merge_tags"@, "rename_tag"@, "delete_tag"@,
        "prune_thread"@, "ingest_file"@, "register_agent"@, "send_message"@,
        "dream_run"@,
    ]
}

/// Whether a tool call is audited: a mutating tool always;
/// `describe_image` only when its `remember` argument is `true`.
pub open spec fn is_audited(name: Seq<char>, remember: Option<bool>) -> bool {
    if name == "describe_image"@ {
        remember == Some(true)
    } else {
        mutating_tools().contains(name)
    }
}

/// The audit action of a tool call: the tool's own name when the call is
/// audited.
pub fn audit_action(name: &str, remember: Option<bool>) -> (r: Option<&'static str>)
    ensures
        match r {
            Some(a) => a@ == name@ && is_audited(name@, remember),
            None => !is_audited(name@, remember),
        },
{
    let n = chars_of(name);
    if eq_lit(n.as_slice(), "describe_image") {
        proof {
            reveal_strlit("describe_image");
        }
        return match remember {
            Some(true) => Some("describe_image"),
            _ => None,
        };
    }
    let list = [
        "remember", "memory_store", "store_procedure", "store_intention",
        "resolve_intention", "session_save", "update_memory", "delete_memory",
        "restore_memory", "restore_version", "purge_memory", "purge_all_deleted",
        "bulk_delete", "share_memory", "associate", "create_schema",
        "episode_start", "episode_add_step", "episode_end",
        "record_procedure_outcome", "merge_tags", "rename_tag", "delete_tag",
        "prune_thread", "ingest_file", "register_agent", "send_message",
        "dream_run",
    ];
    assert(crate::text::str_views(list@) =~= mutating_tools());
    let mut k: usize = 0;
    while k < list.len()
        invariant
            k <= list.len(),
            n@ == name@,
            name@ != "describe_image"@,
            crate::text::str_views(list@) == mutating_tools(),
            forall|j: int| 0 <= j < k ==> mutating_tools()[j] != name@,
        decreases list.len() - k,
    {
        if eq_lit(n.as_slice(), list[k]) {
            assert(crate::text::str_views(list@)[k as int] == list@[k as int]@);
            assert(mutating_tools()[k as int] == name@);
            return Some(list[k]);
        }
        k = k + 1;
    }
    None
}

/// The preview of an audited call: the first of `content`,
/// `session_summary` and `description` that is given, cut to 120 characters
/// with an ellipsis when longer.
pub fn audit_details(content: Option<&str>, session_summary: Option<&str>, description: Option<
    &str,
>) -> (r: Option<String>)
    ensures
        match (if content is Some {
            content
        } else if session_summary is Some {
            session_summary
        } else {
            description
        }) {
            Some(src) => r is Some && r->0@ == (if src@.len() > 120 {
                src@.subrange(0, 120).push('…')
            } else {
                src@
            }),
            None => r is None,
        },
{
    let src = match content {
        Some(c) => c,
        None => match session_summary {
            Some(s) => s,
            None => match description {
                Some(d) => d,
                None => return None,
            },
        },
    };
    Some(truncate_block(src, 120))
}

/// The first value given in a list of optional ids.
pub open spec fn first_given(ids: Seq<Option<String>>) -> Option<Seq<char>>
    decreases ids.len(),
{
    if ids.len() == 0 {
        None
    } else {
        match ids[0] {
            Some(s) => Some(s@),
            None => first_given(ids.drop_first()),
        }
    }
}

/// The first id given in a list.
fn first_id(ids: &Vec<Option<String>>) -> (r: Option<String>)
    ensures
        match r {
            Some(s) => first_given(ids@) == Some(s@),
            None => first_given(ids@) is None,
        },
{
    let mut k: usize = 0;
    assert(ids@.subrange(0, ids.len() as int) =~= ids@);
    while k < ids.len()
        invariant
            k <= ids.len(),
            first_given(ids@) == first_given(ids@.subrange(k as int, ids.len() as int)),
        decreases ids.len() - k,
    {
        assert(ids@.subrange(k as int, ids.len() as int).drop_first() =~= ids@.subrange(
            k + 1,
            ids.len() as int,
        ));
        match &ids[k] {
            Some(s) => {
                return Some(s.clone());
            },
            None => {},
        }
        k = k + 1;
    }
    None
}

/// The memory id of an audit row: the first id the arguments name (in the
/// order memory, procedure, episode, schema), else the first the result
/// names (the same keys, then `id`).
pub fn audit_memory_id(args_ids: &Vec<Option<String>>, result_ids: &Vec<Option<String>>) -> (r:
    Option<String>)
    ensures
        match r {
            Some(s) => Some(s@) == (if first_given(args_ids@) is Some {
                first_given(args_ids@)
            } else {
                first_given(result_ids@)
            }),
            None => first_given(args_ids@) is None && first_given(result_ids@) is None,
        },
{
    match first_id(args_ids) {
        Some(s) => Some(s),
        None => first_id(result_ids),
    }
}

/// A procedure's outcome ledger after one more graded use: missing counts
/// start at zero; a success adds one success, a failure one failure.
pub fn record_outcome(ledger: Option<(u64, u64)>, success: bool) -> (r: (u64, u64))
    requires
        match ledger {
            Some((s, f)) => if success {
                s < u64::MAX
            } else {
                f < u64::MAX
            },
            None => true,
        },
    ensures
        ({
            let (s, f) = match ledger {
                Some(l) => l,
                None => (0u64, 0u64),
            };
            if success {
                r.0 == s + 1 && r.1 == f
            } else {
                r.0 == s && r.1 == f + 1
            }
        }),
{
    let (s, f) = match ledger {
        Some(l) => l,
        None => (0, 0),
    };
    if success {
        (s + 1, f)
    } else {
        (s, f + 1)
    }
}

/// Hard cap, in bytes, on one newline-delimited frame read from stdin.
pub const MAX_FRAME_BYTES: u64 = 33554432;

/// What to do with a line read under the frame cap.
#[derive(Debug, Clone, Copy, PartialEq, Eq, Structural)]
pub enum FrameStep {
    /// Nothing was read: the peer closed its end.
    Eof,
    /// The cap cut the line: drain the rest of it before reading on.
    Drain,
    /// A whole line: parse it.
    Parse,
}

/// The step for a line of `n` bytes read with the cap `max_bytes`: end of
/// input when nothing was read; drain when the cap was reached and the line
/// has no newline at its end; otherwise parse it.
pub fn frame_step(n: u64, ends_with_newline: bool, max_bytes: u64) -> (r: FrameStep)
    ensures
        r == (if n == 0 {
            FrameStep::Eof
        } else if n >= max_bytes && !ends_with_newline {
            FrameStep::Drain
        } else {
            FrameStep::Parse
        }),
{
    if n == 0 {
        FrameStep::Eof
    } else if n >= max_bytes && !ends_with_newline {
        FrameStep::Drain
    } else {
        FrameStep::Parse
    }
}

/// One step of draining an over-long line, given the bytes drained so far
/// and the reader's buffer: returns the new total, how many bytes to
/// consume, and whether the line is over. An empty buffer (end of input)
/// ends it; a newline ends it just after; otherwise the whole buffer goes.
pub fn drain_step(drained: u64, buf: &[u8]) -> (r: (u64, usize, bool))
    requires
        drained + buf@.len() <= u64::MAX,
    ensures
        buf@.len() == 0 ==> r == (drained, 0usize, true),
        buf@.len() > 0 ==> match crate::mcp::first_newline(buf@) {
            Some(p) => r.0 == drained + p + 1 && r.1 == p + 1 && r.2,
            None => r.0 == drained + buf@.len() && r.1 == buf@.len() && !r.2,
        },
{
    if buf.len() == 0 {
        return (drained, 0, true);
    }
    let mut i: usize = 0;
    while i < buf.len()
        invariant
            i <= buf.len(),
            drained + buf@.len() <= u64::MAX,
            forall|j: int| 0 <= j < i ==> buf@[j] != 10u8,
        decreases buf.len() - i,
    {
        if buf[i] == 10u8 {
            proof {
                lemma_first_newline(buf@, i as int);
            }
            return (drained + (i as u64) + 1, i + 1, true);
        }
        i = i + 1;
    }
    proof {
        lemma_first_newline(buf@, i as int);
    }
    (drained + (buf.len() as u64), buf.len(), false)
}

/// Position of the first newline byte.
pub open spec fn first_newline(b: Seq<u8>) -> Option<int>
    decreases b.len(),
{
    if b.len() == 0 {
        None
    } else if b[0] == 10u8 {
        Some(0)
    } else {
        match first_newline(b.drop_first()) {
            Some(k) => Some(k + 1),
            None => None,
        }
    }
}

/// `first_newline` finds the first newline after a stretch without one.
proof fn lemma_first_newline(b: Seq<u8>, i: int)
    requires
        0 <= i <= b.len(),
        forall|j: int| 0 <= j < i ==> b[j] != 10u8,
    ensures
        i < b.len() && b[i] == 10u8 ==> first_newline(b) == Some(i),
        i == b.len() ==> first_newline(b) is None,
    decreases i,
{
    if i > 0 {
        assert forall|j: int| 0 <= j < i - 1 implies b.drop_first()[j] != 10u8 by {
            assert(b.drop_first()[j] == b[j + 1]);
        }
        lemma_first_newline(b.drop_first(), i - 1);
    }
}

/// Why a change of a memory's owner or visibility was refused.
pub enum AccessEditError {
    /// The visibility named (lower-cased) is none of private, shared, thread.
    UnknownVisibility(String),
    /// A memory with no owner cannot be made private: no one could see it.
    OwnerlessPrivate,
}

impl AccessEditError {
    /// The error text.
    pub fn message(&self) -> (r: String)
        ensures
            r@ == match self {
                AccessEditError::UnknownVisibility(v) => "unknown visibility '"@ + v@ + "' (private|shared|thread)"@,
                AccessEditError::OwnerlessPrivate => OWNERLESS_PRIVATE_MESSAGE@,
            },
    {
        match self {
            AccessEditError::UnknownVisibility(v) => crate::api::UnknownVisibility(v.clone()).message(),
            AccessEditError::OwnerlessPrivate => OWNERLESS_PRIVATE_MESSAGE.to_string(),
        }
    }
}

/// The refusal of an owner-less private memory.
pub const OWNERLESS_PRIVATE_MESSAGE: &'static str = "refusing to privatize an owner-less memory (it would be visible to no one) — pass set_agent_id to attribute it first";

/// The owner a memory has after an edit: the trimmed `set_agent_id` when it
/// is not blank, else the owner it had.
pub open spec fn edited_owner(owner: Option<AgentId>, set_agent_id: Option<&str>) -> Option<Seq<char>> {
    match set_agent_id {
        Some(a) => if trim(a@).len() > 0 {
            Some(trim(a@))
        } else {
            opt_agent(owner)
        },
        None => opt_agent(owner),
    }
}

/// Apply an `update_memory` call's `set_agent_id` and `visibility` to a
/// memory's owner and visibility: the owner as `edited_owner`; the
/// visibility named, case ignored, unless it is unknown or would make an
/// owner-less memory private.
pub fn edit_access(
    owner: Option<AgentId>,
    visibility: Visibility,
    set_agent_id: Option<&str>,
    new_visibility: Option<&str>,
) -> (r: Result<(Option<AgentId>, Visibility), AccessEditError>)
    ensures
        match new_visibility {
            None => r is Ok && opt_agent(r->Ok_0.0) == edited_owner(owner, set_agent_id) && r->Ok_0.1
                == visibility,
            Some(v) => match crate::api::visibility_spec(crate::text::lowercase(v@)) {
                None => r matches Err(AccessEditError::UnknownVisibility(l)) && l@ == crate::text::lowercase(
                    v@,
                ),
                Some(x) => if x == Visibility::Private && edited_owner(owner, set_agent_id) is None {
                    r matches Err(AccessEditError::OwnerlessPrivate)
                } else {
                    r is Ok && opt_agent(r->Ok_0.0) == edited_owner(owner, set_agent_id) && r->Ok_0.1 == x
                },
            },
        },
{
    let new_owner = match set_agent_id {
        Some(a) => {
            let c = chars_of(a);
            let t = trim_vec(c.as_slice());
            if t.len() > 0 {
                Some(AgentId(string_of(t.as_slice())))
            } else {
                owner
            }
        },
        None => owner,
    };
    match crate::api::parse_visibility_opt(new_visibility) {
        Err(e) => Err(AccessEditError::UnknownVisibility(e.0)),
        Ok(None) => Ok((new_owner, visibility)),
        Ok(Some(x)) => {
            if x == Visibility::Private && new_owner.is_none() {
                Err(AccessEditError::OwnerlessPrivate)
            } else {
                Ok((new_owner, x))
            }
        },
    }
}

/// The prefix of the tags that record an intention's status.
pub const STATUS_PREFIX: &'static str = "status:";

/// The tag of a resolved intention.
pub const RESOLVED_TAG: &'static str = "status:resolved";

/// `tags` without its status tags (`retain`).
pub open spec fn without_status(tags: Seq<Seq<char>>) -> Seq<Seq<char>>
    decreases tags.len(),
{
    if tags.len() == 0 {
        tags
    } else if crate::text::starts_with(tags.last(), STATUS_PREFIX@) {
        without_status(tags.drop_last())
    } else {
        without_status(tags.drop_last()).push(tags.last())
    }
}

/// The tags of an intention once resolved: its status tags replaced by
/// `status:resolved` at the end.
pub open spec fn resolved_spec(tags: Seq<Seq<char>>) -> Seq<Seq<char>> {
    without_status(tags).push(RESOLVED_TAG@)
}

/// The tags of an intention marked resolved.
pub fn resolved_tags(tags: &Vec<String>) -> (r: Vec<String>)
    ensures
        crate::text::string_views(r@) == resolved_spec(crate::text::string_views(tags@)),
{
    let ghost tv = crate::text::string_views(tags@);
    let prefix = chars_of(STATUS_PREFIX);
    let mut out: Vec<String> = Vec::new();
    let mut k: usize = 0;
    assert(tv.subrange(0, 0) =~= Seq::<Seq<char>>::empty());
    while k < tags.len()
        invariant
            k <= tags@.len(),
            tv == crate::text::string_views(tags@),
            prefix@ == STATUS_PREFIX@,
            crate::text::string_views(out@) == without_status(tv.subrange(0, k as int)),
        decreases tags@.len() - k,
    {
        let ghost before = crate::text::string_views(out@);
        assert(tv.subrange(0, k + 1).drop_last() =~= tv.subrange(0, k as int));
        let c = chars_of(tags[k].as_str());
        if !crate::text::has_prefix(c.as_slice(), prefix.as_slice()) {
            out.push(tags[k].clone());
            assert(crate::text::string_views(out@) =~= before.push(tv[k as int]));
        }
        k = k + 1;
    }
    assert(tv.subrange(0, tags@.len() as int) =~= tv);
    let ghost kept = crate::text::string_views(out@);
    out.push(RESOLVED_TAG.to_string());
    assert(crate::text::string_views(out@) =~= kept.push(RESOLVED_TAG@));
    out
}

/// Dropping status tags twice drops no more than once.
proof fn lemma_without_status_idempotent(tags: Seq<Seq<char>>)
    ensures
        without_status(without_status(tags)) == without_status(tags),
    decreases tags.len(),
{
    if tags.len() > 0 {
        lemma_without_status_idempotent(tags.drop_last());
        let w = without_status(tags.drop_last());
        if !crate::text::starts_with(tags.last(), STATUS_PREFIX@) {
            assert(w.push(tags.last()).drop_last() =~= w);
        }
    }
}

/// No status tag survives `without_status`.
proof fn lemma_without_status_has_none(tags: Seq<Seq<char>>)
    ensures
        forall|i: int|
            0 <= i < without_status(tags).len() ==> !crate::text::starts_with(
                #[trigger] without_status(tags)[i],
                STATUS_PREFIX@,
            ),
    decreases tags.len(),
{
    if tags.len() > 0 {
        lemma_without_status_has_none(tags.drop_last());
        let w = without_status(tags.drop_last());
        if !crate::text::starts_with(tags.last(), STATUS_PREFIX@) {
            assert forall|i: int| 0 <= i < without_status(tags).len() implies !crate::text::starts_with(
                #[trigger] without_status(tags)[i],
                STATUS_PREFIX@,
            ) by {
                if i < w.len() {
                    assert(without_status(tags)[i] == w[i]);
                }
            }
        }
    }
}

/// Resolving an intention twice leaves the same tags as resolving it once.
pub proof fn law_resolving_is_idempotent(tags: Seq<Seq<char>>)
    ensures
        resolved_spec(resolved_spec(tags)) == resolved_spec(tags),
{
    reveal_strlit("status:resolved");
    reveal_strlit("status:");
    let w = without_status(tags);
    assert(crate::text::starts_with(RESOLVED_TAG@, STATUS_PREFIX@)) by {
        assert(RESOLVED_TAG@.subrange(0, STATUS_PREFIX@.len() as int) =~= STATUS_PREFIX@);
    }
    assert(w.push(RESOLVED_TAG@).drop_last() =~= w);
    lemma_without_status_idempotent(tags);
}

/// A resolved intention carries exactly one status tag, `status:resolved`,
/// last.
pub proof fn law_resolved_has_one_status(tags: Seq<Seq<char>>)
    ensures
        resolved_spec(tags).last() == RESOLVED_TAG@,
        forall|i: int|
            0 <= i < resolved_spec(tags).len() - 1 ==> !crate::text::starts_with(
                #[trigger] resolved_spec(tags)[i],
                STATUS_PREFIX@,
            ),
{
    lemma_without_status_has_none(tags);
    assert forall|i: int| 0 <= i < resolved_spec(tags).len() - 1 implies !crate::text::starts_with(
        #[trigger] resolved_spec(tags)[i],
        STATUS_PREFIX@,
    ) by {
        assert(resolved_spec(tags)[i] == without_status(tags)[i]);
    }
}

/// A stored procedure as the procedure lookup reads it: its tags, its
/// metadata as JSON text, and its content.
pub struct ProcedureText {
    pub tags: Vec<String>,
    pub metadata_text: String,
    pub content: String,
}

/// A tag of a procedure equals, once normalised, one asked for.
pub open spec fn tag_hit(asked: Seq<Seq<char>>, tags: Seq<Seq<char>>) -> bool {
    exists|i: int, j: int|
        0 <= i < asked.len() && 0 <= j < tags.len() && norm_tag_spec(#[trigger] tags[j]) == norm_tag_spec(
            #[trigger] asked[i],
        )
}

/// A concept asked for occurs, case ignored, in the metadata or the content.
pub open spec fn concept_hit(concepts: Seq<Seq<char>>, metadata: Seq<char>, content: Seq<char>) -> bool {
    exists|k: int|
        0 <= k < concepts.len() && (crate::text::has_sub(lowercase(metadata), lowercase(#[trigger] concepts[k]))
            || crate::text::has_sub(lowercase(content), lowercase(concepts[k])))
}

/// The tag of a rollback snapshot, which the lookup never returns.
pub const UNDO_SNAPSHOT_TAG: &'static str = "undo_snapshot";

/// Whether the exact stage of the procedure lookup returns a procedure: it
/// is no rollback snapshot, and a tag or a concept asked for hits it.
pub open spec fn procedure_match_spec(asked: Seq<Seq<char>>, concepts: Seq<Seq<char>>, p: ProcedureText) -> bool {
    let tags = crate::text::string_views(p.tags@);
    !tags.contains(UNDO_SNAPSHOT_TAG@) && (tag_hit(asked, tags) || concept_hit(
        concepts,
        p.metadata_text@,
        p.content@,
    ))
}

fn holds_tag(tags: &Vec<String>, t: &str) -> (r: bool)
    ensures
        r == crate::text::string_views(tags@).contains(t@),
{
    let mut i: usize = 0;
    while i < tags.len()
        invariant
            i <= tags@.len(),
            forall|j: int| 0 <= j < i ==> crate::text::string_views(tags@)[j] != t@,
        decreases tags@.len() - i,
    {
        if crate::text::str_eq(tags[i].as_str(), t) {
            assert(crate::text::string_views(tags@)[i as int] == t@);
            return true;
        }
        i = i + 1;
    }
    false
}

/// Whether the exact stage of the procedure lookup returns a procedure.
pub fn procedure_matches(asked: &Vec<String>, concepts: &Vec<String>, p: &ProcedureText) -> (r: bool)
    ensures
        r == procedure_match_spec(
            crate::text::string_views(asked@),
            crate::text::string_views(concepts@),
            *p,
        ),
{
    let ghost av = crate::text::string_views(asked@);
    let ghost tv = crate::text::string_views(p.tags@);
    let ghost cv = crate::text::string_views(concepts@);
    if holds_tag(&p.tags, UNDO_SNAPSHOT_TAG) {
        return false;
    }
    // Tags, normalised.
    let mut i: usize = 0;
    while i < asked.len()
        invariant
            i <= asked@.len(),
            av == crate::text::string_views(asked@),
            tv == crate::text::string_views(p.tags@),
            !tv.contains(UNDO_SNAPSHOT_TAG@),
            forall|a: int, b: int|
                0 <= a < i && 0 <= b < tv.len() ==> norm_tag_spec(#[trigger] tv[b]) != norm_tag_spec(#[trigger] av[a]),
        decreases asked@.len() - i,
    {
        let na = norm_tag(asked[i].as_str());
        let mut j: usize = 0;
        while j < p.tags.len()
            invariant
                i < asked@.len(),
                j <= p.tags@.len(),
                av == crate::text::string_views(asked@),
                tv == crate::text::string_views(p.tags@),
                !tv.contains(UNDO_SNAPSHOT_TAG@),
                na@ == norm_tag_spec(av[i as int]),
                forall|b: int| 0 <= b < j ==> norm_tag_spec(#[trigger] tv[b]) != norm_tag_spec(av[i as int]),
            decreases p.tags@.len() - j,
        {
            let nt = norm_tag(p.tags[j].as_str());
            if crate::text::str_eq(nt.as_str(), na.as_str()) {
                assert(norm_tag_spec(tv[j as int]) == norm_tag_spec(av[i as int]));
                assert(tag_hit(av, tv));
                return true;
            }
            j = j + 1;
        }
        i = i + 1;
    }
    // Concepts, case ignored, in the metadata text or the content.
    let meta = chars_of(to_lowercase(p.metadata_text.as_str()).as_str());
    let body = chars_of(to_lowercase(p.content.as_str()).as_str());
    let mut k: usize = 0;
    while k < concepts.len()
        invariant
            k <= concepts@.len(),
            cv == crate::text::string_views(concepts@),
            !tv.contains(UNDO_SNAPSHOT_TAG@),
            tv == crate::text::string_views(p.tags@),
            meta@ == lowercase(p.metadata_text@),
            body@ == lowercase(p.content@),
            forall|a: int|
                0 <= a < k ==> !(crate::text::has_sub(meta@, lowercase(#[trigger] cv[a])) || crate::text::has_sub(
                    body@,
                    lowercase(cv[a]),
                )),
        decreases concepts@.len() - k,
    {
        let c = chars_of(to_lowercase(concepts[k].as_str()).as_str());
        assert(c@ == lowercase(cv[k as int]));
        if contains(meta.as_slice(), c.as_slice()) || contains(body.as_slice(), c.as_slice()) {
            assert(concept_hit(cv, p.metadata_text@, p.content@));
            return true;
        }
        k = k + 1;
    }
    false
}

/// Whether the schema lookup returns a schema: a tag asked for is among its
/// tags, or a concept asked for occurs (case kept) in its metadata text.
pub open spec fn schema_match_spec(asked: Seq<Seq<char>>, concepts: Seq<Seq<char>>, tags: Seq<Seq<char>>, metadata: Seq<char>) -> bool {
    (exists|i: int| 0 <= i < asked.len() && tags.contains(#[trigger] asked[i])) || (exists|k: int|
        0 <= k < concepts.len() && crate::text::has_sub(metadata, #[trigger] concepts[k]))
}

/// Whether the schema lookup returns a schema.
pub fn schema_matches(asked: &Vec<String>, concepts: &Vec<String>, tags: &Vec<String>, metadata_text: &str) -> (r:
    bool)
    ensures
        r == schema_match_spec(
            crate::text::string_views(asked@),
            crate::text::string_views(concepts@),
            crate::text::string_views(tags@),
            metadata_text@,
        ),
{
    let ghost av = crate::text::string_views(asked@);
    let ghost cv = crate::text::string_views(concepts@);
    let mut i: usize = 0;
    while i < asked.len()
        invariant
            i <= asked@.len(),
            av == crate::text::string_views(asked@),
            forall|a: int| 0 <= a < i ==> !crate::text::string_views(tags@).contains(#[trigger] av[a]),
        decreases asked@.len() - i,
    {
        if holds_tag(tags, asked[i].as_str()) {
            assert(av[i as int] == asked@[i as int]@);
            return true;
        }
        i = i + 1;
    }
    let meta = chars_of(metadata_text);
    let mut k: usize = 0;
    while k < concepts.len()
        invariant
            k <= concepts@.len(),
            cv == crate::text::string_views(concepts@),
            meta@ == metadata_text@,
            forall|a: int| 0 <= a < k ==> !crate::text::has_sub(meta@, #[trigger] cv[a]),
        decreases concepts@.len() - k,
    {
        let c = chars_of(concepts[k].as_str());
        if contains(meta.as_slice(), c.as_slice()) {
            assert(c@ == cv[k as int]);
            return true;
        }
        k = k + 1;
    }
    false
}

/// A procedure's tags after a graded outcome: a success clears the prune
/// flag; a failure that leaves its salience at the prune floor
/// (`at_floor`) sets it, once.
pub open spec fn outcome_tags_spec(tags: Seq<Seq<char>>, success: bool, at_floor: bool) -> Seq<Seq<char>> {
    if success {
        crate::engines::dream_steps::without(tags, crate::engines::dream_steps::PRUNE_CANDIDATE_TAG@)
    } else if at_floor && !tags.contains(crate::engines::dream_steps::PRUNE_CANDIDATE_TAG@) {
        tags.push(crate::engines::dream_steps::PRUNE_CANDIDATE_TAG@)
    } else {
        tags
    }
}

/// A procedure's tags after a graded outcome.
pub fn outcome_tags(tags: &Vec<String>, success: bool, at_floor: bool) -> (r: Vec<String>)
    ensures
        crate::text::string_views(r@) == outcome_tags_spec(crate::text::string_views(tags@), success, at_floor),
{
    if success {
        crate::engines::dream_steps::retain_other(tags, crate::engines::dream_steps::PRUNE_CANDIDATE_TAG)
    } else if at_floor && !crate::engines::dream_steps::listed_in(
        tags,
        crate::engines::dream_steps::PRUNE_CANDIDATE_TAG,
    ) {
        let mut out = crate::ingest::copy_strings(tags);
        out.push(crate::engines::dream_steps::PRUNE_CANDIDATE_TAG.to_string());
        assert(crate::text::string_views(out@) =~= crate::text::string_views(tags@).push(
            crate::engines::dream_steps::PRUNE_CANDIDATE_TAG@,
        ));
        out
    } else {
        crate::ingest::copy_strings(tags)
    }
}

/// An optional string's characters.
pub open spec fn opt_chars(v: Option<&str>) -> Option<Seq<char>> {
    match v {
        Some(s) => Some(s@),
        None => None,
    }
}

/// The tags of a saved session note: the marker, its priority (upper case;
/// `MEDIUM` when none is given), its type (`general` when none is given),
/// and the agent that saved it when one is named.
pub open spec fn session_tags_spec(priority: Option<Seq<char>>, session_type: Option<Seq<char>>, agent: Option<Seq<char>>) -> Seq<
    Seq<char>,
> {
    let p = match priority {
        Some(x) => uppercase(x),
        None => uppercase("MEDIUM"@),
    };
    let t = match session_type {
        Some(x) => x,
        None => "general"@,
    };
    let base = seq!["session_note"@, "priority:"@ + p, "session_type:"@ + t];
    match agent {
        Some(a) => if a.len() > 0 {
            base.push("agent:"@ + a)
        } else {
            base
        },
        None => base,
    }
}

/// The tags `session_save` stores a session note with.
pub fn session_tags(priority: Option<&str>, session_type: Option<&str>, agent: Option<&str>) -> (r: Vec<String>)
    ensures
        crate::text::string_views(r@) == session_tags_spec(opt_chars(priority), opt_chars(session_type), opt_chars(agent)),
{
    let p = normalize_priority(match priority {
        Some(x) => x,
        None => "MEDIUM",
    });
    let t = match session_type {
        Some(x) => x,
        None => "general",
    };
    let mut out: Vec<String> = Vec::new();
    out.push("session_note".to_string());
    out.push(concat("priority:", p.as_str()));
    out.push(concat("session_type:", t));
    let ghost base = crate::text::string_views(out@);
    assert(base =~= seq!["session_note"@, "priority:"@ + p@, "session_type:"@ + t@]);
    if let Some(a) = agent {
        if a.unicode_len() > 0 {
            out.push(concat("agent:", a));
            assert(crate::text::string_views(out@) =~= base.push("agent:"@ + a@));
        }
    }
    out
}

/// Whether a recalled memory is a session note that `session_recall`
/// returns: tagged `session_note`, and, when asked, with the priority
/// (upper-cased) and the session type asked for.
pub open spec fn session_match_spec(tags: Seq<Seq<char>>, priority: Option<Seq<char>>, session_type: Option<Seq<char>>) -> bool {
    &&& tags.contains("session_note"@)
    &&& match priority {
        Some(p) => tags.contains("priority:"@ + uppercase(p)),
        None => true,
    }
    &&& match session_type {
        Some(t) => tags.contains("session_type:"@ + t),
        None => true,
    }
}

/// Whether `session_recall` returns a memory with these tags.
pub fn session_matches(tags: &Vec<String>, priority: Option<&str>, session_type: Option<&str>) -> (r: bool)
    ensures
        r == session_match_spec(crate::text::string_views(tags@), opt_chars(priority), opt_chars(session_type)),
{
    if !holds_tag(tags, "session_note") {
        return false;
    }
    match priority {
        Some(p) => {
            let want = concat("priority:", normalize_priority(p).as_str());
            if !holds_tag(tags, want.as_str()) {
                return false;
            }
        },
        None => {},
    }
    match session_type {
        Some(t) => {
            let want = concat("session_type:", t);
            holds_tag(tags, want.as_str())
        },
        None => true,
    }
}

/// The tags of a message between agents: `message`, its recipient, and its
/// sender (`from_agent_id`, else the caller's `agent_id`, else `unknown`).
pub open spec fn message_tags_spec(to: Seq<char>, from: Option<Seq<char>>, agent: Option<Seq<char>>) -> Seq<Seq<char>> {
    let sender = match from {
        Some(f) => f,
        None => match agent {
            Some(a) => a,
            None => "unknown"@,
        },
    };
    seq!["message"@, "to:"@ + to, "from:"@ + sender]
}

/// The tags `send_message` stores a message with.
pub fn message_tags(to: &str, from: Option<&str>, agent: Option<&str>) -> (r: Vec<String>)
    ensures
        crate::text::string_views(r@) == message_tags_spec(to@, opt_chars(from), opt_chars(agent)),
{
    let sender = match from {
        Some(f) => f,
        None => match agent {
            Some(a) => a,
            None => "unknown",
        },
    };
    let mut out: Vec<String> = Vec::new();
    out.push("message".to_string());
    out.push(concat("to:", to));
    out.push(concat("from:", sender));
    assert(crate::text::string_views(out@) =~= message_tags_spec(to@, opt_chars(from), opt_chars(agent)));
    out
}


/// What a read from the client amounted to.
#[derive(Debug, Clone, Copy, PartialEq, Eq, Structural)]
pub enum FrameKind {
    /// The client closed its end.
    Eof,
    /// A line that is not valid JSON.
    Malformed,
    /// A line past the frame cap, drained and dropped.
    Oversized,
    /// A JSON message.
    Message,
}

/// What the server does with a frame.
#[derive(Debug, Clone, Copy, PartialEq, Eq, Structural)]
pub enum SessionAction {
    /// Stop serving.
    Stop,
    /// Answer with a parse error, then stop (a bad first frame).
    ParseErrorAndStop,
    /// Answer with a parse error and read on.
    ParseError,
    /// Answer the `initialize` request.
    Initialize,
    /// Answer that the method is not found.
    MethodNotFound,
    /// Send nothing: a notification.
    Ignore,
    /// Answer with the tool list.
    ToolsList,
    /// Run the tool call and answer with its outcome.
    ToolsCall,
}

/// The session's rule for one frame: the first frame must be a
/// well-formed `initialize` request (anything else is answered with method
/// not found; a bad first frame with a parse error that ends the session);
/// after it, a bad frame is answered with a parse error and the session
/// goes on, a message without an id or whose method is a notification gets
/// no answer, and `tools/list` and `tools/call` are served, every other
/// method answered with method not found.
pub open spec fn session_step_spec(
    first: bool,
    frame: FrameKind,
    has_id: bool,
    method: Option<Seq<char>>,
) -> SessionAction {
    match frame {
        FrameKind::Eof => SessionAction::Stop,
        FrameKind::Malformed | FrameKind::Oversized => if first {
            SessionAction::ParseErrorAndStop
        } else {
            SessionAction::ParseError
        },
        FrameKind::Message => if first {
            if method == Some("initialize"@) {
                SessionAction::Initialize
            } else {
                SessionAction::MethodNotFound
            }
        } else if !has_id || (method matches Some(m) && starts_with(m, "notifications/"@)) {
            SessionAction::Ignore
        } else if method == Some("tools/list"@) {
            SessionAction::ToolsList
        } else if method == Some("tools/call"@) {
            SessionAction::ToolsCall
        } else {
            SessionAction::MethodNotFound
        },
    }
}

/// Decide what the server does with a frame; `first` says whether it is
/// the session's first, `has_id` whether the message carries a non-null
/// id, `method` its method when that is a string.
pub fn session_step(first: bool, frame: FrameKind, has_id: bool, method: Option<&str>) -> (r: SessionAction)
    ensures
        r == session_step_spec(
            first,
            frame,
            has_id,
            match method {
                Some(m) => Some(m@),
                None => None,
            },
        ),
{
    match frame {
        FrameKind::Eof => SessionAction::Stop,
        FrameKind::Malformed | FrameKind::Oversized => if first {
            SessionAction::ParseErrorAndStop
        } else {
            SessionAction::ParseError
        },
        FrameKind::Message => {
            let m = match method {
                Some(m) => Some(chars_of(m)),
                None => None,
            };
            if first {
                match &m {
                    Some(cs) => if eq_lit(cs.as_slice(), "initialize") {
                        SessionAction::Initialize
                    } else {
                        SessionAction::MethodNotFound
                    },
                    None => SessionAction::MethodNotFound,
                }
            } else {
                match &m {
                    None => if !has_id {
                        SessionAction::Ignore
                    } else {
                        SessionAction::MethodNotFound
                    },
                    Some(cs) => {
                        let p = chars_of("notifications/");
                        if !has_id || has_prefix(cs.as_slice(), p.as_slice()) {
                            SessionAction::Ignore
                        } else if eq_lit(cs.as_slice(), "tools/list") {
                            SessionAction::ToolsList
                        } else if eq_lit(cs.as_slice(), "tools/call") {
                            SessionAction::ToolsCall
                        } else {
                            SessionAction::MethodNotFound
                        }
                    },
                }
            }
        },
    }
}

} // verus!
