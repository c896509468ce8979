//! Routing of MCP tool calls: which tools the server answers, and the
//! required arguments each one checks, in order, before it touches the
//! store; a call that fails a check is answered with that check's message.
use vstd::prelude::*;
use crate::engines::temporal::object_members;
use crate::json::{field, field_spec, JsonValue};
use crate::numtext::{parse_i64, parse_i64_spec};
use crate::text::{chars_of, concat, seq_equal, str_views};

verus! {

/// What a required argument must be.
#[derive(Debug, Clone, Copy, PartialEq, Eq, Structural)]
pub enum ArgKind {
    /// A string.
    Text,
    /// An array.
    List,
    /// A boolean.
    Flag,
    /// A number that is an integer in the range of `i64`.
    Integer,
}

/// The tools the router answers.
pub open spec fn routed_tools() -> Seq<Seq<char>> {
    seq![
        "remember"@,
        "recall"@,
        "associate"@,
        "get_memory"@,
        "delete_memory"@,
        "update_memory"@,
        "memory_store"@,
        "memory_search"@,
        "memory_neighbors"@,
        "find_path"@,
        "common_neighbors"@,
        "cortex_stats"@,
        "memory_graph_stats"@,
        "session_save"@,
        "session_recall"@,
        "list_deleted"@,
        "restore_memory"@,
        "purge_memory"@,
        "purge_all_deleted"@,
        "bulk_delete"@,
        "export_memories"@,
        "register_agent"@,
        "list_agents"@,
        "share_memory"@,
        "send_message"@,
        "check_inbox"@,
        "list_threads"@,
        "get_thread_memories"@,
        "prune_thread"@,
        "list_tags"@,
        "delete_tag"@,
        "rename_tag"@,
        "merge_tags"@,
        "emotional_summary"@,
        "activation_at_risk"@,
        "memory_health"@,
        "activation_curve"@,
        "activation_heatmap"@,
        "check_near_duplicates"@,
        "episode_start"@,
        "episode_add_step"@,
        "episode_end"@,
        "get_episode"@,
        "list_episodes"@,
        "get_episode_memories"@,
        "audit_summary"@,
        "query_audit"@,
        "store_intention"@,
        "list_intentions"@,
        "resolve_intention"@,
        "store_procedure"@,
        "list_procedures"@,
        "find_relevant_procedures"@,
        "record_procedure_outcome"@,
        "create_schema"@,
        "list_schemas"@,
        "find_matching_schemas"@,
        "get_schema_sources"@,
        "get_memory_versions"@,
        "restore_version"@,
        "dream_run"@,
        "dream_status"@,
        "cognitive_bootstrap"@,
    ]
}

/// The required-argument checks, in the order the router makes them: tool,
/// argument, what it must be, and the message when it is not.
pub open spec fn required_args() -> Seq<(Seq<char>, Seq<char>, ArgKind, Seq<char>)> {
    seq![
        ("remember"@, "content"@, ArgKind::Text, "content is required"@),
        ("recall"@, "query"@, ArgKind::Text, "query is required"@),
        ("associate"@, "source_id"@, ArgKind::Text, "source_id is required"@),
        ("associate"@, "target_id"@, ArgKind::Text, "target_id is required"@),
        ("get_memory"@, "memory_id"@, ArgKind::Text, "memory_id is required"@),
        ("delete_memory"@, "memory_id"@, ArgKind::Text, "memory_id is required"@),
        ("update_memory"@, "memory_id"@, ArgKind::Text, "memory_id is required"@),
        ("memory_store"@, "content"@, ArgKind::Text, "content is required"@),
        ("memory_search"@, "query"@, ArgKind::Text, "query is required"@),
        ("memory_neighbors"@, "memory_id"@, ArgKind::Text, "memory_id is required"@),
        ("find_path"@, "source_id"@, ArgKind::Text, "source_id is required"@),
        ("find_path"@, "target_id"@, ArgKind::Text, "target_id is required"@),
        ("common_neighbors"@, "memory_id_a"@, ArgKind::Text, "memory_id_a is required"@),
        ("common_neighbors"@, "memory_id_b"@, ArgKind::Text, "memory_id_b is required"@),
        ("session_save"@, "content"@, ArgKind::Text, "content is required"@),
        ("session_recall"@, "query"@, ArgKind::Text, "query is required"@),
        ("restore_memory"@, "memory_id"@, ArgKind::Text, "memory_id is required"@),
        ("purge_memory"@, "memory_id"@, ArgKind::Text, "memory_id is required"@),
        ("bulk_delete"@, "memory_ids"@, ArgKind::List, "memory_ids (array) is required"@),
        ("register_agent"@, "name"@, ArgKind::Text, "name is required"@),
        ("share_memory"@, "memory_id"@, ArgKind::Text, "memory_id is required"@),
        ("send_message"@, "content"@, ArgKind::Text, "content is required"@),
        ("send_message"@, "to_agent_id"@, ArgKind::Text, "to_agent_id is required"@),
        ("check_inbox"@, "agent_id"@, ArgKind::Text, "agent_id is required"@),
        ("get_thread_memories"@, "thread_id"@, ArgKind::Text, "thread_id is required"@),
        ("prune_thread"@, "thread_id"@, ArgKind::Text, "thread_id is required"@),
        ("delete_tag"@, "tag"@, ArgKind::Text, "tag is required"@),
        ("rename_tag"@, "old_tag"@, ArgKind::Text, "old_tag is required"@),
        ("rename_tag"@, "new_tag"@, ArgKind::Text, "new_tag is required"@),
        ("merge_tags"@, "source_tag"@, ArgKind::Text, "source_tag is required"@),
        ("merge_tags"@, "target_tag"@, ArgKind::Text, "target_tag is required"@),
        ("activation_curve"@, "memory_id"@, ArgKind::Text, "memory_id is required"@),
        ("episode_add_step"@, "episode_id"@, ArgKind::Text, "episode_id is required"@),
        ("episode_add_step"@, "description"@, ArgKind::Text, "description is required"@),
        ("episode_end"@, "episode_id"@, ArgKind::Text, "episode_id is required"@),
        ("get_episode"@, "episode_id"@, ArgKind::Text, "episode_id is required"@),
        ("get_episode_memories"@, "episode_id"@, ArgKind::Text, "episode_id is required"@),
        ("store_intention"@, "content"@, ArgKind::Text, "content required"@),
        ("resolve_intention"@, "memory_id"@, ArgKind::Text, "memory_id required"@),
        ("store_procedure"@, "content"@, ArgKind::Text, "content required"@),
        ("record_procedure_outcome"@, "procedure_id"@, ArgKind::Text, "procedure_id required"@),
        ("record_procedure_outcome"@, "success"@, ArgKind::Flag, "success (bool) required"@),
        ("create_schema"@, "content"@, ArgKind::Text, "content required"@),
        ("get_schema_sources"@, "schema_id"@, ArgKind::Text, "schema_id required"@),
        ("get_memory_versions"@, "memory_id"@, ArgKind::Text, "memory_id required"@),
        ("restore_version"@, "version_id"@, ArgKind::Integer, "version_id (integer) required"@),
    ]
}

/// Whether an argument (absent when `None`) is of the kind asked for, as
/// `serde_json`'s `as_str`, `as_array`, `as_bool` and `as_i64` read it.
pub open spec fn has_kind(v: Option<JsonValue>, k: ArgKind) -> bool {
    match (v, k) {
        (Some(JsonValue::Str(_)), ArgKind::Text) => true,
        (Some(JsonValue::Array(_)), ArgKind::List) => true,
        (Some(JsonValue::Bool(_)), ArgKind::Flag) => true,
        (Some(JsonValue::Number(t)), ArgKind::Integer) => parse_i64_spec(t@) is Some,
        _ => false,
    }
}

/// The message of the first check of tool `name` among `rows` that the
/// argument members `fields` fail.
pub open spec fn first_failure(
    rows: Seq<(Seq<char>, Seq<char>, ArgKind, Seq<char>)>,
    name: Seq<char>,
    fields: Seq<(String, JsonValue)>,
) -> Option<Seq<char>>
    decreases rows.len(),
{
    if rows.len() == 0 {
        None
    } else if rows[0].0 == name && !has_kind(field_spec(fields, rows[0].1), rows[0].2) {
        Some(rows[0].3)
    } else {
        first_failure(rows.drop_first(), name, fields)
    }
}

/// How the router answers a call before it touches the store: a tool it
/// does not answer is refused as not implemented; otherwise the first
/// required argument missing (or of the wrong kind) refuses the call with
/// its message; otherwise the call goes ahead.
pub open spec fn route_check_spec(name: Seq<char>, args: JsonValue) -> Result<(), Seq<char>> {
    if !routed_tools().contains(name) {
        Err("tool not implemented: "@ + name)
    } else {
        match first_failure(required_args(), name, object_members(args)) {
            Some(m) => Err(m),
            None => Ok(()),
        }
    }
}

fn routed_table() -> (r: Vec<&'static str>)
    ensures
        str_views(r@) == routed_tools(),
{
    let t = vec![
        "remember",
        "recall",
        "associate",
        "get_memory",
        "delete_memory",
        "update_memory",
        "memory_store",
        "memory_search",
        "memory_neighbors",
        "find_path",
        "common_neighbors",
        "cortex_stats",
        "memory_graph_stats",
        "session_save",
        "session_recall",
        "list_deleted",
        "restore_memory",
        "purge_memory",
        "purge_all_deleted",
        "bulk_delete",
        "export_memories",
        "register_agent",
        "list_agents",
        "share_memory",
        "send_message",
        "check_inbox",
        "list_threads",
        "get_thread_memories",
        "prune_thread",
        "list_tags",
        "delete_tag",
        "rename_tag",
        "merge_tags",
        "emotional_summary",
        "activation_at_risk",
        "memory_health",
        "activation_curve",
        "activation_heatmap",
        "check_near_duplicates",
        "episode_start",
        "episode_add_step",
        "episode_end",
        "get_episode",
        "list_episodes",
        "get_episode_memories",
        "audit_summary",
        "query_audit",
        "store_intention",
        "list_intentions",
        "resolve_intention",
        "store_procedure",
        "list_procedures",
        "find_relevant_procedures",
        "record_procedure_outcome",
        "create_schema",
        "list_schemas",
        "find_matching_schemas",
        "get_schema_sources",
        "get_memory_versions",
        "restore_version",
        "dream_run",
        "dream_status",
        "cognitive_bootstrap",
    ];
    assert(str_views(t@) =~= routed_tools());
    t
}

/// The views of the rows of the check table.
pub open spec fn row_views(
    t: Seq<(&str, &str, ArgKind, &str)>,
) -> Seq<(Seq<char>, Seq<char>, ArgKind, Seq<char>)> {
    t.map_values(|e: (&str, &str, ArgKind, &str)| (e.0@, e.1@, e.2, e.3@))
}

fn check_table() -> (r: Vec<(&'static str, &'static str, ArgKind, &'static str)>)
    ensures
        row_views(r@) == required_args(),
{
    let t = vec![
        ("remember", "content", ArgKind::Text, "content is required"),
        ("recall", "query", ArgKind::Text, "query is required"),
        ("associate", "source_id", ArgKind::Text, "source_id is required"),
        ("associate", "target_id", ArgKind::Text, "target_id is required"),
        ("get_memory", "memory_id", ArgKind::Text, "memory_id is required"),
        ("delete_memory", "memory_id", ArgKind::Text, "memory_id is required"),
        ("update_memory", "memory_id", ArgKind::Text, "memory_id is required"),
        ("memory_store", "content", ArgKind::Text, "content is required"),
        ("memory_search", "query", ArgKind::Text, "query is required"),
        ("memory_neighbors", "memory_id", ArgKind::Text, "memory_id is required"),
        ("find_path", "source_id", ArgKind::Text, "source_id is required"),
        ("find_path", "target_id", ArgKind::Text, "target_id is required"),
        ("common_neighbors", "memory_id_a", ArgKind::Text, "memory_id_a is required"),
        ("common_neighbors", "memory_id_b", ArgKind::Text, "memory_id_b is required"),
        ("session_save", "content", ArgKind::Text, "content is required"),
        ("session_recall", "query", ArgKind::Text, "query is required"),
        ("restore_memory", "memory_id", ArgKind::Text, "memory_id is required"),
        ("purge_memory", "memory_id", ArgKind::Text, "memory_id is required"),
        ("bulk_delete", "memory_ids", ArgKind::List, "memory_ids (array) is required"),
        ("register_agent", "name", ArgKind::Text, "name is required"),
        ("share_memory", "memory_id", ArgKind::Text, "memory_id is required"),
        ("send_message", "content", ArgKind::Text, "content is required"),
        ("send_message", "to_agent_id", ArgKind::Text, "to_agent_id is required"),
        ("check_inbox", "agent_id", ArgKind::Text, "agent_id is required"),
        ("get_thread_memories", "thread_id", ArgKind::Text, "thread_id is required"),
        ("prune_thread", "thread_id", ArgKind::Text, "thread_id is required"),
        ("delete_tag", "tag", ArgKind::Text, "tag is required"),
        ("rename_tag", "old_tag", ArgKind::Text, "old_tag is required"),
        ("rename_tag", "new_tag", ArgKind::Text, "new_tag is required"),
        ("merge_tags", "source_tag", ArgKind::Text, "source_tag is required"),
        ("merge_tags", "target_tag", ArgKind::Text, "target_tag is required"),
        ("activation_curve", "memory_id", ArgKind::Text, "memory_id is required"),
        ("episode_add_step", "episode_id", ArgKind::Text, "episode_id is required"),
        ("episode_add_step", "description", ArgKind::Text, "description is required"),
        ("episode_end", "episode_id", ArgKind::Text, "episode_id is required"),
        ("get_episode", "episode_id", ArgKind::Text, "episode_id is required"),
        ("get_episode_memories", "episode_id", ArgKind::Text, "episode_id is required"),
        ("store_intention", "content", ArgKind::Text, "content required"),
        ("resolve_intention", "memory_id", ArgKind::Text, "memory_id required"),
        ("store_procedure", "content", ArgKind::Text, "content required"),
        ("record_procedure_outcome", "procedure_id", ArgKind::Text, "procedure_id required"),
        ("record_procedure_outcome", "success", ArgKind::Flag, "success (bool) required"),
        ("create_schema", "content", ArgKind::Text, "content required"),
        ("get_schema_sources", "schema_id", ArgKind::Text, "schema_id required"),
        ("get_memory_versions", "memory_id", ArgKind::Text, "memory_id required"),
        ("restore_version", "version_id", ArgKind::Integer, "version_id (integer) required"),
    ];
    assert(row_views(t@) =~= required_args());
    t
}

/// Whether an argument is of the kind asked for.
pub fn arg_has_kind(v: Option<&JsonValue>, k: ArgKind) -> (r: bool)
    ensures
        r == has_kind(
            match v {
                Some(x) => Some(*x),
                None => None,
            },
            k,
        ),
{
    match (v, k) {
        (Some(JsonValue::Str(_)), ArgKind::Text) => true,
        (Some(JsonValue::Array(_)), ArgKind::List) => true,
        (Some(JsonValue::Bool(_)), ArgKind::Flag) => true,
        (Some(JsonValue::Number(t)), ArgKind::Integer) => {
            let cs = chars_of(t.as_str());
            match parse_i64(cs.as_slice()) {
                Some(_) => true,
                None => false,
            }
        },
        _ => false,
    }
}

fn contains_name(t: &Vec<&'static str>, name: &[char]) -> (r: bool)
    ensures
        r == str_views(t@).contains(name@),
{
    let mut i: usize = 0;
    while i < t.len()
        invariant
            i <= t@.len(),
            forall|j: int| 0 <= j < i ==> str_views(t@)[j] != name@,
        decreases t@.len() - i,
    {
        let c = chars_of(t[i]);
        if seq_equal(c.as_slice(), name) {
            assert(str_views(t@)[i as int] == name@);
            return true;
        }
        i = i + 1;
    }
    false
}

/// Check a tool call the way the router does before it touches the store.
pub fn route_check(name: &str, args: &JsonValue) -> (r: Result<(), String>)
    ensures
        match r {
            Ok(()) => route_check_spec(name@, *args) == Ok::<(), Seq<char>>(()),
            Err(m) => route_check_spec(name@, *args) == Err::<(), Seq<char>>(m@),
        },
{
    let n = chars_of(name);
    let tools = routed_table();
    if !contains_name(&tools, n.as_slice()) {
        proof {
            reveal_strlit("tool not implemented: ");
        }
        return Err(concat("tool not implemented: ", name));
    }
    let empty: Vec<(String, JsonValue)> = Vec::new();
    let fields: &Vec<(String, JsonValue)> = match args {
        JsonValue::Object(fs) => fs,
        _ => &empty,
    };
    assert(fields@ == object_members(*args));
    let rows = check_table();
    let ghost rv = row_views(rows@);
    let mut i: usize = 0;
    assert(rv.subrange(0, rv.len() as int) =~= rv);
    while i < rows.len()
        invariant
            i <= rows@.len(),
            n@ == name@,
            rv == row_views(rows@),
            rv == required_args(),
            fields@ == object_members(*args),
            first_failure(rv, name@, fields@) == first_failure(
                rv.subrange(i as int, rv.len() as int),
                name@,
                fields@,
            ),
        decreases rows@.len() - i,
    {
        let ghost rest = rv.subrange(i as int, rv.len() as int);
        assert(rest.drop_first() =~= rv.subrange(i + 1, rv.len() as int));
        assert(rest[0] == rv[i as int]);
        let row = rows[i];
        let tool = chars_of(row.0);
        if seq_equal(tool.as_slice(), n.as_slice()) {
            let v = field(fields, row.1);
            if !arg_has_kind(v, row.2) {
                return Err(String::from_str(row.3));
            }
        }
        i = i + 1;
    }
    assert(rv.subrange(i as int, rv.len() as int).len() == 0);
    Ok(())
}

} // verus!
