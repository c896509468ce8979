//! The MCP tool catalog: the name, description and JSON input schema of
//! every advertised tool, in the order `tools/list` gives them.
use vstd::prelude::*;
use crate::text::{chars_of, concat, seq_equal};

verus! {

pub const REMEMBER_DESCRIPTION: &'static str = "Save information to long-term memory. Automatically detects duplicates, categorizes the content, and connects it to related memories. Use this to store facts, decisions, or anything worth remembering.";
pub const REMEMBER_INPUT: &'static str = "{\"type\":\"object\",\"properties\":{\"content\":{\"type\":\"string\",\"description\":\"The memory content to store\"},\"memory_type\":{\"type\":\"string\",\"enum\":[\"episodic\",\"semantic\",\"procedural\",\"affective\",\"prospective\",\"schematic\"],\"description\":\"Memory type (auto-classified if omitted)\"},\"tags\":{\"anyOf\":[{\"type\":\"array\",\"items\":{\"type\":\"string\"}},{\"type\":\"string\"}],\"description\":\"Tags for categorization\"},\"salience\":{\"type\":\"number\",\"description\":\"Importance 0-1 (auto-estimated if omitted)\"},\"agent_id\":{\"type\":\"string\",\"description\":\"Agent storing this memory\"},\"visibility\":{\"type\":\"string\",\"enum\":[\"private\",\"shared\",\"thread\"],\"description\":\"Who can see this memory\"}},\"required\":[\"content\"]}";

pub const RECALL_DESCRIPTION: &'static str = "Search your memories by meaning, not just keywords. Returns the most relevant memories ranked by relevance, importance, and recency.";
pub const RECALL_INPUT: &'static str = "{\"type\":\"object\",\"properties\":{\"query\":{\"type\":\"string\",\"description\":\"Search query text\"},\"top_k\":{\"type\":\"integer\",\"description\":\"Max results to return (default: 10)\"},\"agent_id\":{\"type\":\"string\",\"description\":\"Filter to this agent's memories\"},\"visibility\":{\"type\":\"string\",\"enum\":[\"shared\"],\"description\":\"Restrict to shared-visibility memories ONLY (the federation scope; narrower than any agent scope)\"}},\"required\":[\"query\"]}";

pub const GET_MEMORY_DESCRIPTION: &'static str = "Retrieve a specific memory by ID.";
pub const GET_MEMORY_INPUT: &'static str = "{\"type\":\"object\",\"properties\":{\"memory_id\":{\"type\":\"string\",\"description\":\"The memory UUID\"},\"agent_id\":{\"type\":\"string\",\"description\":\"Agent scope for access control\"}},\"required\":[\"memory_id\"]}";

pub const UPDATE_MEMORY_DESCRIPTION: &'static str = "Update fields of an existing memory. Only provided fields are changed.";
pub const UPDATE_MEMORY_INPUT: &'static str = "{\"type\":\"object\",\"properties\":{\"memory_id\":{\"type\":\"string\",\"description\":\"Memory UUID to update\"},\"content\":{\"type\":\"string\"},\"tags\":{\"anyOf\":[{\"type\":\"array\",\"items\":{\"type\":\"string\"}},{\"type\":\"string\"}]},\"salience\":{\"type\":\"number\"},\"agent_id\":{\"type\":\"string\"},\"visibility\":{\"type\":\"string\",\"enum\":[\"private\",\"shared\",\"thread\"],\"description\":\"Change visibility. share_memory stays the deliberate publish act; privatizing an owner-less memory requires set_agent_id (else it would be visible to no one).\"},\"set_agent_id\":{\"type\":\"string\",\"description\":\"Re-attribute ownership (e.g. heal an agent_id-null record). Caller-stamped for model calls — a model can only claim to itself.\"}},\"required\":[\"memory_id\"]}";

pub const DELETE_MEMORY_DESCRIPTION: &'static str = "Soft-delete a memory (recoverable via restore_memory).";
pub const DELETE_MEMORY_INPUT: &'static str = "{\"type\":\"object\",\"properties\":{\"memory_id\":{\"type\":\"string\",\"description\":\"Memory UUID to delete\"},\"agent_id\":{\"type\":\"string\"}},\"required\":[\"memory_id\"]}";

pub const ASSOCIATE_DESCRIPTION: &'static str = "Create a typed link between two existing memories. Strengthens the association graph for spreading activation during recall.";
pub const ASSOCIATE_INPUT: &'static str = "{\"type\":\"object\",\"properties\":{\"source_id\":{\"type\":\"string\",\"description\":\"ID of the source memory\"},\"target_id\":{\"type\":\"string\",\"description\":\"ID of the target memory\"},\"link_type\":{\"type\":\"string\",\"enum\":[\"temporal\",\"causal\",\"semantic\",\"affective\",\"contextual\",\"contradicts\",\"supports\",\"derived_from\",\"part_of\"],\"description\":\"Relationship type (default: semantic)\"},\"weight\":{\"type\":\"number\",\"description\":\"Link strength 0-1 (default: 0.5)\"},\"agent_id\":{\"type\":\"string\",\"description\":\"Agent creating this link\"}},\"required\":[\"source_id\",\"target_id\"]}";

pub const MEMORY_SEARCH_DESCRIPTION: &'static str = "Search memories by meaning (alias for 'recall').";
pub const MEMORY_SEARCH_INPUT: &'static str = "{\"type\":\"object\",\"properties\":{\"query\":{\"type\":\"string\"},\"top_k\":{\"type\":\"integer\"},\"agent_id\":{\"type\":\"string\"}},\"required\":[\"query\"]}";

pub const MEMORY_STORE_DESCRIPTION: &'static str = "Save information to memory (alias for 'remember').";
pub const MEMORY_STORE_INPUT: &'static str = "{\"type\":\"object\",\"properties\":{\"content\":{\"type\":\"string\"},\"agent_id\":{\"type\":\"string\"},\"tags\":{\"anyOf\":[{\"type\":\"array\",\"items\":{\"type\":\"string\"}},{\"type\":\"string\"}]},\"memory_type\":{\"type\":\"string\",\"enum\":[\"episodic\",\"semantic\",\"procedural\",\"affective\",\"prospective\",\"schematic\"],\"description\":\"Memory type (auto-classified if omitted)\"},\"salience\":{\"type\":\"number\",\"description\":\"Importance 0-1 (auto-estimated if omitted)\"}},\"required\":[\"content\"]}";

pub const MEMORY_NEIGHBORS_DESCRIPTION: &'static str = "Return all directly linked memories of a given memory.";
pub const MEMORY_NEIGHBORS_INPUT: &'static str = "{\"type\":\"object\",\"properties\":{\"memory_id\":{\"type\":\"string\"},\"agent_id\":{\"type\":\"string\"}},\"required\":[\"memory_id\"]}";

pub const COMMON_NEIGHBORS_DESCRIPTION: &'static str = "Find memories directly linked to both of two given memories.";
pub const COMMON_NEIGHBORS_INPUT: &'static str = "{\"type\":\"object\",\"properties\":{\"memory_id_a\":{\"type\":\"string\"},\"memory_id_b\":{\"type\":\"string\"},\"agent_id\":{\"type\":\"string\"}},\"required\":[\"memory_id_a\",\"memory_id_b\"]}";

pub const FIND_PATH_DESCRIPTION: &'static str = "Find the shortest directed path between two memories in the association graph.";
pub const FIND_PATH_INPUT: &'static str = "{\"type\":\"object\",\"properties\":{\"source_id\":{\"type\":\"string\"},\"target_id\":{\"type\":\"string\"},\"agent_id\":{\"type\":\"string\"}},\"required\":[\"source_id\",\"target_id\"]}";

pub const CHECK_NEAR_DUPLICATES_DESCRIPTION: &'static str = "Find pairs of memories with cosine similarity above a threshold.";
pub const CHECK_NEAR_DUPLICATES_INPUT: &'static str = "{\"type\":\"object\",\"properties\":{\"threshold\":{\"type\":\"number\",\"description\":\"Similarity threshold 0-1 (default: 0.9)\"},\"limit\":{\"type\":\"integer\",\"description\":\"Number of recent memories to scan (default: 50)\"},\"agent_id\":{\"type\":\"string\"}},\"required\":[]}";

pub const SESSION_SAVE_DESCRIPTION: &'static str = "Save a session summary to long-term episodic memory with priority and type tags. Used to create searchable session notes for FORGE and other agents.";
pub const SESSION_SAVE_INPUT: &'static str = "{\"type\":\"object\",\"properties\":{\"content\":{\"type\":\"string\",\"description\":\"Session summary content\"},\"priority\":{\"type\":\"string\",\"enum\":[\"LOW\",\"MEDIUM\",\"HIGH\",\"CRITICAL\"],\"description\":\"Priority tag (default: MEDIUM; case-insensitive)\"},\"session_type\":{\"type\":\"string\",\"description\":\"Session type tag e.g. technical, planning (default: general)\"},\"salience\":{\"type\":\"number\"},\"agent_id\":{\"type\":\"string\"}},\"required\":[\"content\"]}";

pub const SESSION_RECALL_DESCRIPTION: &'static str = "Recall previously saved session notes. Filters to memories tagged session_note, optionally by priority or session_type.";
pub const SESSION_RECALL_INPUT: &'static str = "{\"type\":\"object\",\"properties\":{\"query\":{\"type\":\"string\"},\"top_k\":{\"type\":\"integer\"},\"priority\":{\"type\":\"string\"},\"session_type\":{\"type\":\"string\"},\"agent_id\":{\"type\":\"string\"}},\"required\":[\"query\"]}";

pub const GET_THREAD_MEMORIES_DESCRIPTION: &'static str = "Get all memories belonging to a specific conversation thread.";
pub const GET_THREAD_MEMORIES_INPUT: &'static str = "{\"type\":\"object\",\"properties\":{\"thread_id\":{\"type\":\"string\"},\"agent_id\":{\"type\":\"string\"}},\"required\":[\"thread_id\"]}";

pub const PRUNE_THREAD_DESCRIPTION: &'static str = "Soft-delete all memories in a conversation thread.";
pub const PRUNE_THREAD_INPUT: &'static str = "{\"type\":\"object\",\"properties\":{\"thread_id\":{\"type\":\"string\"}},\"required\":[\"thread_id\"]}";

pub const EPISODE_START_DESCRIPTION: &'static str = "Begin a new episode (a named sequence of steps).";
pub const EPISODE_START_INPUT: &'static str = "{\"type\":\"object\",\"properties\":{\"title\":{\"type\":\"string\"},\"agent_id\":{\"type\":\"string\"},\"thread_id\":{\"type\":\"string\"}},\"required\":[]}";

pub const EPISODE_ADD_STEP_DESCRIPTION: &'static str = "Append a step to an episode, optionally linking a memory.";
pub const EPISODE_ADD_STEP_INPUT: &'static str = "{\"type\":\"object\",\"properties\":{\"episode_id\":{\"type\":\"string\"},\"step_index\":{\"type\":\"integer\"},\"description\":{\"type\":\"string\"},\"memory_id\":{\"type\":\"string\"}},\"required\":[\"episode_id\",\"description\"]}";

pub const EPISODE_END_DESCRIPTION: &'static str = "Mark an episode as complete with an optional summary.";
pub const EPISODE_END_INPUT: &'static str = "{\"type\":\"object\",\"properties\":{\"episode_id\":{\"type\":\"string\"},\"summary\":{\"type\":\"string\"}},\"required\":[\"episode_id\"]}";

pub const GET_EPISODE_DESCRIPTION: &'static str = "Retrieve a full episode including its steps.";
pub const GET_EPISODE_INPUT: &'static str = "{\"type\":\"object\",\"properties\":{\"episode_id\":{\"type\":\"string\"}},\"required\":[\"episode_id\"]}";

pub const GET_EPISODE_MEMORIES_DESCRIPTION: &'static str = "Get all memories referenced by an episode.";
pub const GET_EPISODE_MEMORIES_INPUT: &'static str = "{\"type\":\"object\",\"properties\":{\"episode_id\":{\"type\":\"string\"},\"agent_id\":{\"type\":\"string\"}},\"required\":[\"episode_id\"]}";

pub const LIST_EPISODES_DESCRIPTION: &'static str = "List episodes, optionally filtered by agent.";
pub const LIST_EPISODES_INPUT: &'static str = "{\"type\":\"object\",\"properties\":{\"agent_id\":{\"type\":\"string\"},\"limit\":{\"type\":\"integer\",\"description\":\"Max results (default: 20)\"}},\"required\":[]}";

pub const DREAM_RUN_DESCRIPTION: &'static str = "Run a full 6-phase memory consolidation cycle: SWS replay (Hebbian link strengthening), pattern extraction (procedural memory formation), schema formation (abstract principle generation), emotional reprocessing, pruning of stale memories, and REM recombination (unexpected semantic connections). LLM-assisted phases skip gracefully when no API key is configured.";
pub const DREAM_RUN_INPUT: &'static str = "{\"type\":\"object\",\"properties\":{\"agent_id\":{\"type\":\"string\",\"description\":\"Scope consolidation to a specific agent's memories\"},\"max_llm_calls\":{\"type\":\"integer\",\"description\":\"Cap on LLM API calls (default 20, max 20)\",\"default\":20}},\"required\":[]}";

pub const DREAM_STATUS_DESCRIPTION: &'static str = "Return the most recent dream consolidation report, or {\"status\": \"no_cycles_run\"} if no cycle has run yet.";
pub const DREAM_STATUS_INPUT: &'static str = "{\"type\":\"object\",\"properties\":{},\"required\":[]}";

pub const STORE_INTENTION_DESCRIPTION: &'static str = "Save a TODO or reminder for future action. The system will surface it when relevant.";
pub const STORE_INTENTION_INPUT: &'static str = "{\"type\":\"object\",\"properties\":{\"content\":{\"type\":\"string\",\"description\":\"The TODO or reminder content\"},\"tags\":{\"anyOf\":[{\"type\":\"array\",\"items\":{\"type\":\"string\"}},{\"type\":\"string\"}],\"description\":\"Tags for categorization\"},\"agent_id\":{\"type\":\"string\",\"description\":\"Agent storing this intention\"},\"salience\":{\"type\":\"number\",\"description\":\"Importance 0-1 (default: 0.7)\"}},\"required\":[\"content\"]}";

pub const LIST_INTENTIONS_DESCRIPTION: &'static str = "List pending TODOs and reminders that have not been resolved.";
pub const LIST_INTENTIONS_INPUT: &'static str = "{\"type\":\"object\",\"properties\":{\"agent_id\":{\"type\":\"string\",\"description\":\"Filter by agent\"},\"min_salience\":{\"type\":\"number\",\"description\":\"Minimum importance threshold (default: 0.3)\"},\"limit\":{\"type\":\"integer\",\"description\":\"Max results (default: 50)\"}},\"required\":[]}";

pub const RESOLVE_INTENTION_DESCRIPTION: &'static str = "Mark a TODO or reminder as done.";
pub const RESOLVE_INTENTION_INPUT: &'static str = "{\"type\":\"object\",\"properties\":{\"memory_id\":{\"type\":\"string\",\"description\":\"Memory ID of the intention to resolve\"},\"agent_id\":{\"type\":\"string\",\"description\":\"Agent ID for access check\"}},\"required\":[\"memory_id\"]}";

pub const STORE_PROCEDURE_DESCRIPTION: &'static str = "Store a workflow, strategy, or how-to guide. These are recalled when you need instructions for a task.";
pub const STORE_PROCEDURE_INPUT: &'static str = "{\"type\":\"object\",\"properties\":{\"content\":{\"type\":\"string\",\"description\":\"The workflow or how-to content\"},\"tags\":{\"anyOf\":[{\"type\":\"array\",\"items\":{\"type\":\"string\"}},{\"type\":\"string\"}],\"description\":\"Tags for categorization\"},\"derived_from\":{\"anyOf\":[{\"type\":\"array\",\"items\":{\"type\":\"string\"}},{\"type\":\"string\"}],\"description\":\"IDs of memories this procedure is derived from\"},\"agent_id\":{\"type\":\"string\",\"description\":\"Agent storing this procedure\"}},\"required\":[\"content\"]}";

pub const LIST_PROCEDURES_DESCRIPTION: &'static str = "List all stored workflows, strategies, and how-to guides.";
pub const LIST_PROCEDURES_INPUT: &'static str = "{\"type\":\"object\",\"properties\":{\"agent_id\":{\"type\":\"string\",\"description\":\"Filter by agent\"},\"min_salience\":{\"type\":\"number\",\"description\":\"Minimum importance threshold (default: 0.0)\"},\"limit\":{\"type\":\"integer\",\"description\":\"Max results (default: 50)\"}},\"required\":[]}";

pub const FIND_RELEVANT_PROCEDURES_DESCRIPTION: &'static str = "Find workflows and how-to guides. Two stages: normalized tag/concept match (case and -/_ insensitive), then semantic recall widening when exact matching leaves room (from `query`, or the tags/concepts as query text). Champions rank first. The response reports how each stage matched and how many procedures exist in scope — an empty `procedures` with a nonzero `procedures_in_scope` means the matcher may have missed, not that nothing exists.";
pub const FIND_RELEVANT_PROCEDURES_INPUT: &'static str = "{\"type\":\"object\",\"properties\":{\"tags\":{\"anyOf\":[{\"type\":\"array\",\"items\":{\"type\":\"string\"}},{\"type\":\"string\"}],\"description\":\"Tags to match (normalized: case and -/_ insensitive)\"},\"concepts\":{\"anyOf\":[{\"type\":\"array\",\"items\":{\"type\":\"string\"}},{\"type\":\"string\"}],\"description\":\"Concepts to match (scans content + metadata, case-insensitive)\"},\"query\":{\"type\":\"string\",\"description\":\"Free-text semantic match via recall, filtered to procedures\"},\"limit\":{\"type\":\"integer\",\"description\":\"Max results (default: 5)\"},\"agent_id\":{\"type\":\"string\",\"description\":\"Agent scope\"}},\"required\":[]}";

pub const RECORD_PROCEDURE_OUTCOME_DESCRIPTION: &'static str = "Record whether a procedure worked or failed. This improves future procedure recommendations.";
pub const RECORD_PROCEDURE_OUTCOME_INPUT: &'static str = "{\"type\":\"object\",\"properties\":{\"procedure_id\":{\"type\":\"string\",\"description\":\"Procedure memory ID\"},\"success\":{\"type\":\"boolean\",\"description\":\"Whether the procedure succeeded\"},\"agent_id\":{\"type\":\"string\",\"description\":\"Agent ID for access check\"}},\"required\":[\"procedure_id\",\"success\"]}";

pub const EMOTIONAL_SUMMARY_DESCRIPTION: &'static str = "Summarise emotional valence distribution across memories.";
pub const EMOTIONAL_SUMMARY_INPUT: &'static str = "{\"type\":\"object\",\"properties\":{\"agent_id\":{\"type\":\"string\"}},\"required\":[]}";

pub const ACTIVATION_CURVE_DESCRIPTION: &'static str = "Return the access history and FSRS state for a specific memory.";
pub const ACTIVATION_CURVE_INPUT: &'static str = "{\"type\":\"object\",\"properties\":{\"memory_id\":{\"type\":\"string\"},\"agent_id\":{\"type\":\"string\"}},\"required\":[\"memory_id\"]}";

pub const ACTIVATION_HEATMAP_DESCRIPTION: &'static str = "Return memory creation counts grouped by type and month.";
pub const ACTIVATION_HEATMAP_INPUT: &'static str = "{\"type\":\"object\",\"properties\":{\"agent_id\":{\"type\":\"string\"}},\"required\":[]}";

pub const ACTIVATION_AT_RISK_DESCRIPTION: &'static str = "Return memories whose FSRS retrievability has dropped below a threshold.";
pub const ACTIVATION_AT_RISK_INPUT: &'static str = "{\"type\":\"object\",\"properties\":{\"threshold\":{\"type\":\"number\",\"description\":\"Retrievability threshold 0-1 (default: 0.7)\"},\"limit\":{\"type\":\"integer\",\"description\":\"Max results (default: 20)\"},\"agent_id\":{\"type\":\"string\"}},\"required\":[]}";

pub const MEMORY_HEALTH_DESCRIPTION: &'static str = "Return overall memory health metrics: total, deleted, avg salience, avg stability, by-type breakdown.";
pub const MEMORY_HEALTH_INPUT: &'static str = "{\"type\":\"object\",\"properties\":{\"agent_id\":{\"type\":\"string\"}},\"required\":[]}";

pub const CORTEX_STATS_DESCRIPTION: &'static str = "Return aggregate statistics: total memories, deleted, links, counts by type.";
pub const CORTEX_STATS_INPUT: &'static str = "{\"type\":\"object\",\"properties\":{},\"required\":[]}";

pub const MEMORY_GRAPH_STATS_DESCRIPTION: &'static str = "Return the in-memory association graph node and edge counts.";
pub const MEMORY_GRAPH_STATS_INPUT: &'static str = "{\"type\":\"object\",\"properties\":{},\"required\":[]}";

pub const AUDIT_SUMMARY_DESCRIPTION: &'static str = "Summarise audit log events by action type.";
pub const AUDIT_SUMMARY_INPUT: &'static str = "{\"type\":\"object\",\"properties\":{},\"required\":[]}";

pub const QUERY_AUDIT_DESCRIPTION: &'static str = "Your own action timeline: every successful mutating tool call (remember/update/delete/episodes/procedures/dream_run/…) leaves one row — 'what did I actually do, in order?' answered from one place. Newest first; filter by agent, action (tool name), or since (RFC3339 timestamp).";
pub const QUERY_AUDIT_INPUT: &'static str = "{\"type\":\"object\",\"properties\":{\"limit\":{\"type\":\"integer\",\"description\":\"Max results (default: 50)\"},\"agent_id\":{\"type\":\"string\"},\"action\":{\"type\":\"string\",\"description\":\"Filter to one action (tool name, e.g. 'remember')\"},\"since\":{\"type\":\"string\",\"description\":\"Only entries at/after this RFC3339 timestamp\"}},\"required\":[]}";

pub const LIST_TAGS_DESCRIPTION: &'static str = "List all tags used across memories with their counts.";
pub const LIST_TAGS_INPUT: &'static str = "{\"type\":\"object\",\"properties\":{\"agent_id\":{\"type\":\"string\"}},\"required\":[]}";

pub const FIND_BY_TAGS_DESCRIPTION: &'static str = "Find memories carrying EVERY given tag (exact match, AND). Precise where recall is fuzzy — use it for provenance queries (e.g. tags [\"from:apex1\"] lists everything a peer sent; add \"origin:<id>\" to find one specific federated import).";
pub const FIND_BY_TAGS_INPUT: &'static str = "{\"type\":\"object\",\"properties\":{\"tags\":{\"anyOf\":[{\"type\":\"array\",\"items\":{\"type\":\"string\"}},{\"type\":\"string\"}],\"description\":\"Tag(s) that must ALL be present\"},\"limit\":{\"type\":\"integer\",\"description\":\"Max results (default: 20)\"},\"agent_id\":{\"type\":\"string\"}},\"required\":[\"tags\"]}";

pub const DELETE_TAG_DESCRIPTION: &'static str = "Remove a tag from all memories.";
pub const DELETE_TAG_INPUT: &'static str = "{\"type\":\"object\",\"properties\":{\"tag\":{\"type\":\"string\"}},\"required\":[\"tag\"]}";

pub const RENAME_TAG_DESCRIPTION: &'static str = "Rename a tag across all memories.";
pub const RENAME_TAG_INPUT: &'static str = "{\"type\":\"object\",\"properties\":{\"old_tag\":{\"type\":\"string\"},\"new_tag\":{\"type\":\"string\"}},\"required\":[\"old_tag\",\"new_tag\"]}";

pub const MERGE_TAGS_DESCRIPTION: &'static str = "Merge source_tag into target_tag across all memories.";
pub const MERGE_TAGS_INPUT: &'static str = "{\"type\":\"object\",\"properties\":{\"source_tag\":{\"type\":\"string\"},\"target_tag\":{\"type\":\"string\"}},\"required\":[\"source_tag\",\"target_tag\"]}";

pub const CREATE_SCHEMA_DESCRIPTION: &'static str = "Create a general pattern or principle derived from multiple memories. Useful for capturing recurring themes or lessons learned.";
pub const CREATE_SCHEMA_INPUT: &'static str = "{\"type\":\"object\",\"properties\":{\"content\":{\"type\":\"string\",\"description\":\"The pattern or principle to record\"},\"source_ids\":{\"anyOf\":[{\"type\":\"array\",\"items\":{\"type\":\"string\"}},{\"type\":\"string\"}],\"description\":\"IDs of the memories this pattern is derived from\"},\"tags\":{\"anyOf\":[{\"type\":\"array\",\"items\":{\"type\":\"string\"}},{\"type\":\"string\"}],\"description\":\"Tags for categorization\"},\"agent_id\":{\"type\":\"string\",\"description\":\"Agent creating this schema\"},\"salience\":{\"type\":\"number\",\"description\":\"Importance 0-1 (default: 0.7)\"}},\"required\":[\"content\",\"source_ids\"]}";

pub const LIST_SCHEMAS_DESCRIPTION: &'static str = "List all stored patterns and principles.";
pub const LIST_SCHEMAS_INPUT: &'static str = "{\"type\":\"object\",\"properties\":{\"agent_id\":{\"type\":\"string\",\"description\":\"Filter by agent\"},\"limit\":{\"type\":\"integer\",\"description\":\"Max results (default: 50)\"}},\"required\":[]}";

pub const FIND_MATCHING_SCHEMAS_DESCRIPTION: &'static str = "Find patterns and principles matching given tags or concepts.";
pub const FIND_MATCHING_SCHEMAS_INPUT: &'static str = "{\"type\":\"object\",\"properties\":{\"tags\":{\"anyOf\":[{\"type\":\"array\",\"items\":{\"type\":\"string\"}},{\"type\":\"string\"}],\"description\":\"Tags to match\"},\"concepts\":{\"anyOf\":[{\"type\":\"array\",\"items\":{\"type\":\"string\"}},{\"type\":\"string\"}],\"description\":\"Concepts to match\"},\"limit\":{\"type\":\"integer\",\"description\":\"Max results (default: 5)\"},\"agent_id\":{\"type\":\"string\",\"description\":\"Agent scope\"}},\"required\":[]}";

pub const GET_SCHEMA_SOURCES_DESCRIPTION: &'static str = "Get the original memories that a pattern or principle was derived from.";
pub const GET_SCHEMA_SOURCES_INPUT: &'static str = "{\"type\":\"object\",\"properties\":{\"schema_id\":{\"type\":\"string\",\"description\":\"Schema memory ID\"},\"agent_id\":{\"type\":\"string\",\"description\":\"Agent ID for access check\"}},\"required\":[\"schema_id\"]}";

pub const REGISTER_AGENT_DESCRIPTION: &'static str = "Register an agent in the agent registry.";
pub const REGISTER_AGENT_INPUT: &'static str = "{\"type\":\"object\",\"properties\":{\"name\":{\"type\":\"string\"},\"agent_id\":{\"type\":\"string\",\"description\":\"Agent ID (auto-generated if omitted)\"},\"description\":{\"type\":\"string\"},\"metadata\":{\"type\":\"object\"}},\"required\":[\"name\"]}";

pub const LIST_AGENTS_DESCRIPTION: &'static str = "List all registered agents.";
pub const LIST_AGENTS_INPUT: &'static str = "{\"type\":\"object\",\"properties\":{},\"required\":[]}";

pub const SHARE_MEMORY_DESCRIPTION: &'static str = "Make a memory shared (globally visible) or transfer it to a specific agent.";
pub const SHARE_MEMORY_INPUT: &'static str = "{\"type\":\"object\",\"properties\":{\"memory_id\":{\"type\":\"string\"},\"target_agent_id\":{\"type\":\"string\",\"description\":\"If omitted, makes globally shared\"}},\"required\":[\"memory_id\"]}";

pub const SEND_MESSAGE_DESCRIPTION: &'static str = "Send a message to another agent by storing a memory tagged with to:{agent} and from:{agent}.";
pub const SEND_MESSAGE_INPUT: &'static str = "{\"type\":\"object\",\"properties\":{\"content\":{\"type\":\"string\"},\"to_agent_id\":{\"type\":\"string\"},\"from_agent_id\":{\"type\":\"string\"},\"thread_id\":{\"type\":\"string\"},\"agent_id\":{\"type\":\"string\"}},\"required\":[\"content\",\"to_agent_id\"]}";

pub const CHECK_INBOX_DESCRIPTION: &'static str = "Check messages sent to a specific agent (memories tagged to:{agent_id}).";
pub const CHECK_INBOX_INPUT: &'static str = "{\"type\":\"object\",\"properties\":{\"agent_id\":{\"type\":\"string\"},\"limit\":{\"type\":\"integer\",\"description\":\"Max results (default: 20)\"}},\"required\":[\"agent_id\"]}";

pub const LIST_THREADS_DESCRIPTION: &'static str = "List distinct conversation thread IDs that have memories.";
pub const LIST_THREADS_INPUT: &'static str = "{\"type\":\"object\",\"properties\":{\"agent_id\":{\"type\":\"string\"}},\"required\":[]}";

pub const COGNITIVE_BOOTSTRAP_DESCRIPTION: &'static str = "Assemble a token-budgeted priming block from live memory state — open intentions, recent session summaries, distilled skills, and query-relevant procedures and memories. Step-0 of session boot: one call replaces the multi-tool orient (session_recall + list_intentions + find_relevant_procedures + recall).";
pub const COGNITIVE_BOOTSTRAP_INPUT: &'static str = "{\"type\":\"object\",\"properties\":{\"query\":{\"type\":\"string\",\"description\":\"Current task or last-known context — drives which skills/procedures/memories surface\"},\"mode\":{\"type\":\"string\",\"description\":\"Token budget: minimal (1000) | standard (2000) | full (4500). Default: standard\"},\"max_tokens\":{\"type\":\"integer\",\"description\":\"Hard cap on the priming block (only tightens the mode budget; default 2000)\"},\"agent_id\":{\"type\":\"string\",\"description\":\"Scope the priming to this agent's memories\"}},\"required\":[\"query\"]}";

pub const INGEST_FILE_DESCRIPTION: &'static str = "Read a file and store its contents as searchable memories. Routed by extension: text/code and HTML are paragraph-chunked (≤500 words, sentence-split); Markdown splits on ## sections (section titles become tags; simple `key: value` frontmatter sets type/tags); JSON accepts a list of strings or {content, type, tags, salience} records (or a {memories:[…]}/{records:[…]} wrapper); CSV stores one memory per row, or a schema summary past 200 rows; PDF text is extracted (no OCR — image-only scans are rejected honestly); images are captioned via the vision backend and CLIP-indexed for search_vision. Every memory gets a `source:<filename>` tag — find_by_tags with it lists (or cleans up) the whole import.";
pub const INGEST_FILE_INPUT: &'static str = "{\"type\":\"object\",\"properties\":{\"file_path\":{\"type\":\"string\",\"description\":\"Absolute path to the file\"},\"tags\":{\"anyOf\":[{\"type\":\"array\",\"items\":{\"type\":\"string\"}},{\"type\":\"string\"}],\"description\":\"Tags to apply to all imported memories\"},\"agent_id\":{\"type\":\"string\",\"description\":\"Agent performing the import\"}},\"required\":[\"file_path\"]}";

pub const DESCRIBE_IMAGE_DESCRIPTION: &'static str = "Caption an image with a vision model and (optionally) store the caption as a memory — closing the vision→memory loop. Backend is tiered: a local/LAN Ollama VLM, falling back to an external API. Pass a workspace `path` OR inline `b64` (+ `media_type`).";
pub const DESCRIBE_IMAGE_INPUT: &'static str = "{\"type\":\"object\",\"properties\":{\"path\":{\"type\":\"string\",\"description\":\"Path to an image file\"},\"b64\":{\"type\":\"string\",\"description\":\"Base64-encoded image data (alternative to path; for images not on disk)\"},\"media_type\":{\"type\":\"string\",\"description\":\"MIME type for b64 input (image/png|jpeg|gif|webp); sniffed from the data when omitted\"},\"prompt\":{\"type\":\"string\",\"description\":\"What to focus on; defaults to a general detailed caption for search\"},\"remember\":{\"type\":\"boolean\",\"description\":\"If true, store the caption as a memory (tagged `vision`) and return its memory_id. Default false\"},\"memory_type\":{\"type\":\"string\",\"description\":\"Memory type when remember=true (episodic|semantic|…); default episodic\"},\"tags\":{\"type\":\"array\",\"items\":{\"type\":\"string\"},\"description\":\"Extra tags for the stored memory (when remember=true)\"},\"agent_id\":{\"type\":\"string\",\"description\":\"Scope the stored memory to this agent\"}},\"required\":[]}";

pub const SEARCH_VISION_DESCRIPTION: &'static str = "Visually recall stored images — the read half of the vision loop (describe_image with remember:true is the write half). Rank your remembered images by a `query` (a text description; CLIP text→image) OR by an example image (`path`/`b64`; image→image similarity). Returns the matching caption memories with the source image_path (when available) so you can re-view them. On a node with image embeddings disabled (Nano tier) it falls back to keyword/semantic recall over the captions.";
pub const SEARCH_VISION_INPUT: &'static str = "{\"type\":\"object\",\"properties\":{\"query\":{\"type\":\"string\",\"description\":\"Text describing what to find (e.g. 'a red bicycle by a door')\"},\"path\":{\"type\":\"string\",\"description\":\"Instead of text: a workspace image path to find visually-similar images\"},\"b64\":{\"type\":\"string\",\"description\":\"Instead of text: an inline base64 image to match against\"},\"media_type\":{\"type\":\"string\",\"description\":\"Media type hint for `b64` (e.g. image/jpeg)\"},\"k\":{\"type\":\"integer\",\"description\":\"Max results (default 5, max 50)\"},\"agent_id\":{\"type\":\"string\",\"description\":\"Scope the search to this agent's memories\"}},\"required\":[]}";

pub const EXPORT_MEMORIES_DESCRIPTION: &'static str = "Export memories as JSON. Optionally filter by type.";
pub const EXPORT_MEMORIES_INPUT: &'static str = "{\"type\":\"object\",\"properties\":{\"memory_type\":{\"type\":\"string\",\"enum\":[\"episodic\",\"semantic\",\"procedural\",\"affective\",\"prospective\",\"schematic\"]},\"limit\":{\"type\":\"integer\",\"description\":\"Max results (default: 1000)\"},\"agent_id\":{\"type\":\"string\"}},\"required\":[]}";

pub const LIST_DELETED_DESCRIPTION: &'static str = "List soft-deleted memories that can be restored.";
pub const LIST_DELETED_INPUT: &'static str = "{\"type\":\"object\",\"properties\":{\"limit\":{\"type\":\"integer\",\"description\":\"Max results (default: 50)\"},\"agent_id\":{\"type\":\"string\"}},\"required\":[]}";

pub const RESTORE_MEMORY_DESCRIPTION: &'static str = "Restore a soft-deleted memory.";
pub const RESTORE_MEMORY_INPUT: &'static str = "{\"type\":\"object\",\"properties\":{\"memory_id\":{\"type\":\"string\"}},\"required\":[\"memory_id\"]}";

pub const PURGE_MEMORY_DESCRIPTION: &'static str = "Permanently delete a memory (irreversible). Prefer delete_memory for recoverable soft-delete.";
pub const PURGE_MEMORY_INPUT: &'static str = "{\"type\":\"object\",\"properties\":{\"memory_id\":{\"type\":\"string\"}},\"required\":[\"memory_id\"]}";

pub const BULK_DELETE_DESCRIPTION: &'static str = "Soft-delete multiple memories at once.";
pub const BULK_DELETE_INPUT: &'static str = "{\"type\":\"object\",\"properties\":{\"memory_ids\":{\"type\":\"array\",\"items\":{\"type\":\"string\"}}},\"required\":[\"memory_ids\"]}";

pub const PURGE_ALL_DELETED_DESCRIPTION: &'static str = "Permanently delete all soft-deleted memories (irreversible bulk purge).";
pub const PURGE_ALL_DELETED_INPUT: &'static str = "{\"type\":\"object\",\"properties\":{},\"required\":[]}";

pub const GET_MEMORY_VERSIONS_DESCRIPTION: &'static str = "Get version history for a memory. Each content change creates a snapshot.";
pub const GET_MEMORY_VERSIONS_INPUT: &'static str = "{\"type\":\"object\",\"properties\":{\"memory_id\":{\"type\":\"string\",\"description\":\"Memory ID\"},\"limit\":{\"type\":\"integer\",\"description\":\"Max versions to return (default: 10)\"}},\"required\":[\"memory_id\"]}";

pub const RESTORE_VERSION_DESCRIPTION: &'static str = "Restore a memory to a previous version snapshot.";
pub const RESTORE_VERSION_INPUT: &'static str = "{\"type\":\"object\",\"properties\":{\"version_id\":{\"type\":\"integer\",\"description\":\"Version row ID from get_memory_versions\"},\"agent_id\":{\"type\":\"string\",\"description\":\"Agent ID for access check\"}},\"required\":[\"version_id\"]}";

/// The input schema of a tool the catalog does not know.
pub const UNKNOWN_INPUT: &'static str = "{\"type\":\"object\",\"properties\":{},\"required\":[]}";

/// The catalog, in advertised order: name, description, input schema (JSON).
pub open spec fn catalog() -> Seq<(Seq<char>, Seq<char>, Seq<char>)> {
    seq![
        ("remember"@, REMEMBER_DESCRIPTION@, REMEMBER_INPUT@),
        ("recall"@, RECALL_DESCRIPTION@, RECALL_INPUT@),
        ("get_memory"@, GET_MEMORY_DESCRIPTION@, GET_MEMORY_INPUT@),
        ("update_memory"@, UPDATE_MEMORY_DESCRIPTION@, UPDATE_MEMORY_INPUT@),
        ("delete_memory"@, DELETE_MEMORY_DESCRIPTION@, DELETE_MEMORY_INPUT@),
        ("associate"@, ASSOCIATE_DESCRIPTION@, ASSOCIATE_INPUT@),
        ("memory_search"@, MEMORY_SEARCH_DESCRIPTION@, MEMORY_SEARCH_INPUT@),
        ("memory_store"@, MEMORY_STORE_DESCRIPTION@, MEMORY_STORE_INPUT@),
        ("memory_neighbors"@, MEMORY_NEIGHBORS_DESCRIPTION@, MEMORY_NEIGHBORS_INPUT@),
        ("common_neighbors"@, COMMON_NEIGHBORS_DESCRIPTION@, COMMON_NEIGHBORS_INPUT@),
        ("find_path"@, FIND_PATH_DESCRIPTION@, FIND_PATH_INPUT@),
        ("check_near_duplicates"@, CHECK_NEAR_DUPLICATES_DESCRIPTION@, CHECK_NEAR_DUPLICATES_INPUT@),
        ("session_save"@, SESSION_SAVE_DESCRIPTION@, SESSION_SAVE_INPUT@),
        ("session_recall"@, SESSION_RECALL_DESCRIPTION@, SESSION_RECALL_INPUT@),
        ("get_thread_memories"@, GET_THREAD_MEMORIES_DESCRIPTION@, GET_THREAD_MEMORIES_INPUT@),
        ("prune_thread"@, PRUNE_THREAD_DESCRIPTION@, PRUNE_THREAD_INPUT@),
        ("episode_start"@, EPISODE_START_DESCRIPTION@, EPISODE_START_INPUT@),
        ("episode_add_step"@, EPISODE_ADD_STEP_DESCRIPTION@, EPISODE_ADD_STEP_INPUT@),
        ("episode_end"@, EPISODE_END_DESCRIPTION@, EPISODE_END_INPUT@),
        ("get_episode"@, GET_EPISODE_DESCRIPTION@, GET_EPISODE_INPUT@),
        ("get_episode_memories"@, GET_EPISODE_MEMORIES_DESCRIPTION@, GET_EPISODE_MEMORIES_INPUT@),
        ("list_episodes"@, LIST_EPISODES_DESCRIPTION@, LIST_EPISODES_INPUT@),
        ("dream_run"@, DREAM_RUN_DESCRIPTION@, DREAM_RUN_INPUT@),
        ("dream_status"@, DREAM_STATUS_DESCRIPTION@, DREAM_STATUS_INPUT@),
        ("store_intention"@, STORE_INTENTION_DESCRIPTION@, STORE_INTENTION_INPUT@),
        ("list_intentions"@, LIST_INTENTIONS_DESCRIPTION@, LIST_INTENTIONS_INPUT@),
        ("resolve_intention"@, RESOLVE_INTENTION_DESCRIPTION@, RESOLVE_INTENTION_INPUT@),
        ("store_procedure"@, STORE_PROCEDURE_DESCRIPTION@, STORE_PROCEDURE_INPUT@),
        ("list_procedures"@, LIST_PROCEDURES_DESCRIPTION@, LIST_PROCEDURES_INPUT@),
        ("find_relevant_procedures"@, FIND_RELEVANT_PROCEDURES_DESCRIPTION@, FIND_RELEVANT_PROCEDURES_INPUT@),
        ("record_procedure_outcome"@, RECORD_PROCEDURE_OUTCOME_DESCRIPTION@, RECORD_PROCEDURE_OUTCOME_INPUT@),
        ("emotional_summary"@, EMOTIONAL_SUMMARY_DESCRIPTION@, EMOTIONAL_SUMMARY_INPUT@),
        ("activation_curve"@, ACTIVATION_CURVE_DESCRIPTION@, ACTIVATION_CURVE_INPUT@),
        ("activation_heatmap"@, ACTIVATION_HEATMAP_DESCRIPTION@, ACTIVATION_HEATMAP_INPUT@),
        ("activation_at_risk"@, ACTIVATION_AT_RISK_DESCRIPTION@, ACTIVATION_AT_RISK_INPUT@),
        ("memory_health"@, MEMORY_HEALTH_DESCRIPTION@, MEMORY_HEALTH_INPUT@),
        ("cortex_stats"@, CORTEX_STATS_DESCRIPTION@, CORTEX_STATS_INPUT@),
        ("memory_graph_stats"@, MEMORY_GRAPH_STATS_DESCRIPTION@, MEMORY_GRAPH_STATS_INPUT@),
        ("audit_summary"@, AUDIT_SUMMARY_DESCRIPTION@, AUDIT_SUMMARY_INPUT@),
        ("query_audit"@, QUERY_AUDIT_DESCRIPTION@, QUERY_AUDIT_INPUT@),
        ("list_tags"@, LIST_TAGS_DESCRIPTION@, LIST_TAGS_INPUT@),
        ("find_by_tags"@, FIND_BY_TAGS_DESCRIPTION@, FIND_BY_TAGS_INPUT@),
        ("delete_tag"@, DELETE_TAG_DESCRIPTION@, DELETE_TAG_INPUT@),
        ("rename_tag"@, RENAME_TAG_DESCRIPTION@, RENAME_TAG_INPUT@),
        ("merge_tags"@, MERGE_TAGS_DESCRIPTION@, MERGE_TAGS_INPUT@),
        ("create_schema"@, CREATE_SCHEMA_DESCRIPTION@, CREATE_SCHEMA_INPUT@),
        ("list_schemas"@, LIST_SCHEMAS_DESCRIPTION@, LIST_SCHEMAS_INPUT@),
        ("find_matching_schemas"@, FIND_MATCHING_SCHEMAS_DESCRIPTION@, FIND_MATCHING_SCHEMAS_INPUT@),
        ("get_schema_sources"@, GET_SCHEMA_SOURCES_DESCRIPTION@, GET_SCHEMA_SOURCES_INPUT@),
        ("register_agent"@, REGISTER_AGENT_DESCRIPTION@, REGISTER_AGENT_INPUT@),
        ("list_agents"@, LIST_AGENTS_DESCRIPTION@, LIST_AGENTS_INPUT@),
        ("share_memory"@, SHARE_MEMORY_DESCRIPTION@, SHARE_MEMORY_INPUT@),
        ("send_message"@, SEND_MESSAGE_DESCRIPTION@, SEND_MESSAGE_INPUT@),
        ("check_inbox"@, CHECK_INBOX_DESCRIPTION@, CHECK_INBOX_INPUT@),
        ("list_threads"@, LIST_THREADS_DESCRIPTION@, LIST_THREADS_INPUT@),
        ("cognitive_bootstrap"@, COGNITIVE_BOOTSTRAP_DESCRIPTION@, COGNITIVE_BOOTSTRAP_INPUT@),
        ("ingest_file"@, INGEST_FILE_DESCRIPTION@, INGEST_FILE_INPUT@),
        ("describe_image"@, DESCRIBE_IMAGE_DESCRIPTION@, DESCRIBE_IMAGE_INPUT@),
        ("search_vision"@, SEARCH_VISION_DESCRIPTION@, SEARCH_VISION_INPUT@),
        ("export_memories"@, EXPORT_MEMORIES_DESCRIPTION@, EXPORT_MEMORIES_INPUT@),
        ("list_deleted"@, LIST_DELETED_DESCRIPTION@, LIST_DELETED_INPUT@),
        ("restore_memory"@, RESTORE_MEMORY_DESCRIPTION@, RESTORE_MEMORY_INPUT@),
        ("purge_memory"@, PURGE_MEMORY_DESCRIPTION@, PURGE_MEMORY_INPUT@),
        ("bulk_delete"@, BULK_DELETE_DESCRIPTION@, BULK_DELETE_INPUT@),
        ("purge_all_deleted"@, PURGE_ALL_DELETED_DESCRIPTION@, PURGE_ALL_DELETED_INPUT@),
        ("get_memory_versions"@, GET_MEMORY_VERSIONS_DESCRIPTION@, GET_MEMORY_VERSIONS_INPUT@),
        ("restore_version"@, RESTORE_VERSION_DESCRIPTION@, RESTORE_VERSION_INPUT@),
    ]
}

/// The description and input schema the catalog gives a name: its first
/// entry of that name.
pub open spec fn catalog_entry(t: Seq<(Seq<char>, Seq<char>, Seq<char>)>, name: Seq<char>) -> Option<(Seq<char>, Seq<char>)>
    decreases t.len(),
{
    if t.len() == 0 {
        None
    } else if t[0].0 == name {
        Some((t[0].1, t[0].2))
    } else {
        catalog_entry(t.drop_first(), name)
    }
}

/// A tool's schema as plain values.
pub struct ToolSchema {
    pub name: String,
    pub description: String,
    /// The `inputSchema` object, as JSON text.
    pub input_schema: String,
}

/// The schema of the tool `name`: the catalog's entry, or, for a name it
/// does not list, a placeholder that says the tool is not implemented and
/// takes no arguments.
pub open spec fn tool_schema_spec(name: Seq<char>) -> (Seq<char>, Seq<char>, Seq<char>) {
    match catalog_entry(catalog(), name) {
        Some((d, s)) => (name, d, s),
        None => (name, "(not yet implemented) "@ + name, UNKNOWN_INPUT@),
    }
}

/// The views of a tool schema.
pub open spec fn schema_view(s: ToolSchema) -> (Seq<char>, Seq<char>, Seq<char>) {
    (s.name@, s.description@, s.input_schema@)
}

fn catalog_table() -> (r: Vec<(&'static str, &'static str, &'static str)>)
    ensures
        r@.map_values(|e: (&str, &str, &str)| (e.0@, e.1@, e.2@)) == catalog(),
{
    let t = vec![
        ("remember", REMEMBER_DESCRIPTION, REMEMBER_INPUT),
        ("recall", RECALL_DESCRIPTION, RECALL_INPUT),
        ("get_memory", GET_MEMORY_DESCRIPTION, GET_MEMORY_INPUT),
        ("update_memory", UPDATE_MEMORY_DESCRIPTION, UPDATE_MEMORY_INPUT),
        ("delete_memory", DELETE_MEMORY_DESCRIPTION, DELETE_MEMORY_INPUT),
        ("associate", ASSOCIATE_DESCRIPTION, ASSOCIATE_INPUT),
        ("memory_search", MEMORY_SEARCH_DESCRIPTION, MEMORY_SEARCH_INPUT),
        ("memory_store", MEMORY_STORE_DESCRIPTION, MEMORY_STORE_INPUT),
        ("memory_neighbors", MEMORY_NEIGHBORS_DESCRIPTION, MEMORY_NEIGHBORS_INPUT),
        ("common_neighbors", COMMON_NEIGHBORS_DESCRIPTION, COMMON_NEIGHBORS_INPUT),
        ("find_path", FIND_PATH_DESCRIPTION, FIND_PATH_INPUT),
        ("check_near_duplicates", CHECK_NEAR_DUPLICATES_DESCRIPTION, CHECK_NEAR_DUPLICATES_INPUT),
        ("session_save", SESSION_SAVE_DESCRIPTION, SESSION_SAVE_INPUT),
        ("session_recall", SESSION_RECALL_DESCRIPTION, SESSION_RECALL_INPUT),
        ("get_thread_memories", GET_THREAD_MEMORIES_DESCRIPTION, GET_THREAD_MEMORIES_INPUT),
        ("prune_thread", PRUNE_THREAD_DESCRIPTION, PRUNE_THREAD_INPUT),
        ("episode_start", EPISODE_START_DESCRIPTION, EPISODE_START_INPUT),
        ("episode_add_step", EPISODE_ADD_STEP_DESCRIPTION, EPISODE_ADD_STEP_INPUT),
        ("episode_end", EPISODE_END_DESCRIPTION, EPISODE_END_INPUT),
        ("get_episode", GET_EPISODE_DESCRIPTION, GET_EPISODE_INPUT),
        ("get_episode_memories", GET_EPISODE_MEMORIES_DESCRIPTION, GET_EPISODE_MEMORIES_INPUT),
        ("list_episodes", LIST_EPISODES_DESCRIPTION, LIST_EPISODES_INPUT),
        ("dream_run", DREAM_RUN_DESCRIPTION, DREAM_RUN_INPUT),
        ("dream_status", DREAM_STATUS_DESCRIPTION, DREAM_STATUS_INPUT),
        ("store_intention", STORE_INTENTION_DESCRIPTION, STORE_INTENTION_INPUT),
        ("list_intentions", LIST_INTENTIONS_DESCRIPTION, LIST_INTENTIONS_INPUT),
        ("resolve_intention", RESOLVE_INTENTION_DESCRIPTION, RESOLVE_INTENTION_INPUT),
        ("store_procedure", STORE_PROCEDURE_DESCRIPTION, STORE_PROCEDURE_INPUT),
        ("list_procedures", LIST_PROCEDURES_DESCRIPTION, LIST_PROCEDURES_INPUT),
        ("find_relevant_procedures", FIND_RELEVANT_PROCEDURES_DESCRIPTION, FIND_RELEVANT_PROCEDURES_INPUT),
        ("record_procedure_outcome", RECORD_PROCEDURE_OUTCOME_DESCRIPTION, RECORD_PROCEDURE_OUTCOME_INPUT),
        ("emotional_summary", EMOTIONAL_SUMMARY_DESCRIPTION, EMOTIONAL_SUMMARY_INPUT),
        ("activation_curve", ACTIVATION_CURVE_DESCRIPTION, ACTIVATION_CURVE_INPUT),
        ("activation_heatmap", ACTIVATION_HEATMAP_DESCRIPTION, ACTIVATION_HEATMAP_INPUT),
        ("activation_at_risk", ACTIVATION_AT_RISK_DESCRIPTION, ACTIVATION_AT_RISK_INPUT),
        ("memory_health", MEMORY_HEALTH_DESCRIPTION, MEMORY_HEALTH_INPUT),
        ("cortex_stats", CORTEX_STATS_DESCRIPTION, CORTEX_STATS_INPUT),
        ("memory_graph_stats", MEMORY_GRAPH_STATS_DESCRIPTION, MEMORY_GRAPH_STATS_INPUT),
        ("audit_summary", AUDIT_SUMMARY_DESCRIPTION, AUDIT_SUMMARY_INPUT),
        ("query_audit", QUERY_AUDIT_DESCRIPTION, QUERY_AUDIT_INPUT),
        ("list_tags", LIST_TAGS_DESCRIPTION, LIST_TAGS_INPUT),
        ("find_by_tags", FIND_BY_TAGS_DESCRIPTION, FIND_BY_TAGS_INPUT),
        ("delete_tag", DELETE_TAG_DESCRIPTION, DELETE_TAG_INPUT),
        ("rename_tag", RENAME_TAG_DESCRIPTION, RENAME_TAG_INPUT),
        ("merge_tags", MERGE_TAGS_DESCRIPTION, MERGE_TAGS_INPUT),
        ("create_schema", CREATE_SCHEMA_DESCRIPTION, CREATE_SCHEMA_INPUT),
        ("list_schemas", LIST_SCHEMAS_DESCRIPTION, LIST_SCHEMAS_INPUT),
        ("find_matching_schemas", FIND_MATCHING_SCHEMAS_DESCRIPTION, FIND_MATCHING_SCHEMAS_INPUT),
        ("get_schema_sources", GET_SCHEMA_SOURCES_DESCRIPTION, GET_SCHEMA_SOURCES_INPUT),
        ("register_agent", REGISTER_AGENT_DESCRIPTION, REGISTER_AGENT_INPUT),
        ("list_agents", LIST_AGENTS_DESCRIPTION, LIST_AGENTS_INPUT),
        ("share_memory", SHARE_MEMORY_DESCRIPTION, SHARE_MEMORY_INPUT),
        ("send_message", SEND_MESSAGE_DESCRIPTION, SEND_MESSAGE_INPUT),
        ("check_inbox", CHECK_INBOX_DESCRIPTION, CHECK_INBOX_INPUT),
        ("list_threads", LIST_THREADS_DESCRIPTION, LIST_THREADS_INPUT),
        ("cognitive_bootstrap", COGNITIVE_BOOTSTRAP_DESCRIPTION, COGNITIVE_BOOTSTRAP_INPUT),
        ("ingest_file", INGEST_FILE_DESCRIPTION, INGEST_FILE_INPUT),
        ("describe_image", DESCRIBE_IMAGE_DESCRIPTION, DESCRIBE_IMAGE_INPUT),
        ("search_vision", SEARCH_VISION_DESCRIPTION, SEARCH_VISION_INPUT),
        ("export_memories", EXPORT_MEMORIES_DESCRIPTION, EXPORT_MEMORIES_INPUT),
        ("list_deleted", LIST_DELETED_DESCRIPTION, LIST_DELETED_INPUT),
        ("restore_memory", RESTORE_MEMORY_DESCRIPTION, RESTORE_MEMORY_INPUT),
        ("purge_memory", PURGE_MEMORY_DESCRIPTION, PURGE_MEMORY_INPUT),
        ("bulk_delete", BULK_DELETE_DESCRIPTION, BULK_DELETE_INPUT),
        ("purge_all_deleted", PURGE_ALL_DELETED_DESCRIPTION, PURGE_ALL_DELETED_INPUT),
        ("get_memory_versions", GET_MEMORY_VERSIONS_DESCRIPTION, GET_MEMORY_VERSIONS_INPUT),
        ("restore_version", RESTORE_VERSION_DESCRIPTION, RESTORE_VERSION_INPUT),
    ];
    assert(t@.map_values(|e: (&str, &str, &str)| (e.0@, e.1@, e.2@)) =~= catalog());
    t
}

/// The names of the advertised tools, in order.
pub fn tool_names() -> (r: Vec<&'static str>)
    ensures
        r@.len() == catalog().len(),
        forall|i: int| 0 <= i < r@.len() ==> #[trigger] r@[i]@ == catalog()[i].0,
{
    let t = catalog_table();
    let ghost tv = t@.map_values(|e: (&str, &str, &str)| (e.0@, e.1@, e.2@));
    let mut out: Vec<&'static str> = Vec::new();
    let mut i: usize = 0;
    while i < t.len()
        invariant
            i <= t@.len(),
            tv == catalog(),
            tv == t@.map_values(|e: (&str, &str, &str)| (e.0@, e.1@, e.2@)),
            out@.len() == i,
            forall|j: int| 0 <= j < i ==> #[trigger] out@[j]@ == catalog()[j].0,
        decreases t@.len() - i,
    {
        assert(tv[i as int].0 == t@[i as int].0@);
        out.push(t[i].0);
        i = i + 1;
    }
    out
}

/// The schema of one tool.
pub fn tool_schema(name: &str) -> (r: ToolSchema)
    ensures
        schema_view(r) == tool_schema_spec(name@),
{
    let t = catalog_table();
    let ghost tv = t@.map_values(|e: (&str, &str, &str)| (e.0@, e.1@, e.2@));
    let n = chars_of(name);
    let mut i: usize = 0;
    assert(tv.subrange(0, tv.len() as int) =~= tv);
    while i < t.len()
        invariant
            i <= t@.len(),
            n@ == name@,
            tv == catalog(),
            tv == t@.map_values(|e: (&str, &str, &str)| (e.0@, e.1@, e.2@)),
            catalog_entry(tv, name@) == catalog_entry(tv.subrange(i as int, tv.len() as int), name@),
        decreases t@.len() - i,
    {
        let ghost rest = tv.subrange(i as int, tv.len() as int);
        assert(rest.drop_first() =~= tv.subrange(i + 1, tv.len() as int));
        assert(rest[0] == tv[i as int]);
        let e = t[i];
        let en = chars_of(e.0);
        if seq_equal(en.as_slice(), n.as_slice()) {
            return ToolSchema {
                name: String::from_str(name),
                description: String::from_str(e.1),
                input_schema: String::from_str(e.2),
            };
        }
        i = i + 1;
    }
    assert(tv.subrange(i as int, tv.len() as int).len() == 0);
    proof {
        reveal_strlit("(not yet implemented) ");
    }
    ToolSchema {
        name: String::from_str(name),
        description: concat("(not yet implemented) ", name),
        input_schema: String::from_str(UNKNOWN_INPUT),
    }
}

/// The schemas of all advertised tools, in order.
pub fn all_tool_schemas() -> (r: Vec<ToolSchema>)
    ensures
        r@.len() == catalog().len(),
        forall|i: int| 0 <= i < r@.len() ==> schema_view(#[trigger] r@[i]) == tool_schema_spec(catalog()[i].0),
{
    let names = tool_names();
    let mut out: Vec<ToolSchema> = Vec::new();
    let mut i: usize = 0;
    while i < names.len()
        invariant
            i <= names@.len(),
            names@.len() == catalog().len(),
            forall|j: int| 0 <= j < names@.len() ==> #[trigger] names@[j]@ == catalog()[j].0,
            out@.len() == i,
            forall|j: int| 0 <= j < i ==> schema_view(#[trigger] out@[j]) == tool_schema_spec(catalog()[j].0),
        decreases names@.len() - i,
    {
        let s = tool_schema(names[i]);
        assert(names@[i as int]@ == catalog()[i as int].0);
        out.push(s);
        i = i + 1;
    }
    out
}

} // verus!
