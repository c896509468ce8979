use cerebro::mcp::{session_step, FrameKind, SessionAction};
use cerebro::api::{
    export_cap, resolve_projection, ct_eq, default_limit, default_max_llm_calls, default_top_k, head_chars, not_found,
    parse_link_type, parse_visibility_opt, scope_from,
};
use cerebro::mcp::{
    agent_scope, edit_access, outcome_tags, procedure_matches, resolved_tags, schema_matches,
    message_tags, session_matches, session_tags,
    AccessEditError, ProcedureText, audit_action, audit_details, audit_memory_id, drain_step, error_code,
    frame_step, norm_tag, record_outcome, truncate_block, FrameStep, INTERNAL_ERROR,
    INVALID_PARAMS, METHOD_NOT_FOUND,
};
use cerebro::bootstrap::{assemble_bootstrap, bootstrap_budget, Intention, Recalled};
use cerebro::json::{coerce_str_list, JsonValue};
use cerebro::types::{AgentId, LinkType, MemoryType, Visibility};
use cerebro::api::normalize_priority as api_priority;
use cerebro::mcp::normalize_priority as tool_priority;

#[test]
fn normalize_priority_uppercases() {
    assert_eq!(api_priority("medium"), "MEDIUM");
    assert_eq!(api_priority("High"), "HIGH");
    assert_eq!(api_priority("LOW"), "LOW");
}

#[test]
fn normalize_priority_default_matches_lowercase_input() {
    assert_eq!(api_priority("MEDIUM"), api_priority("medium"));
}

#[test]
fn normalize_priority_is_case_insensitive() {
    assert_eq!(tool_priority("medium"), "MEDIUM");
    assert_eq!(tool_priority("Medium"), "MEDIUM");
    assert_eq!(tool_priority("MEDIUM"), "MEDIUM");
    assert_eq!(tool_priority("high"), "HIGH");
}

#[test]
fn norm_tag_folds_case_and_separators() {
    assert_eq!(norm_tag("Mesh_Recall"), norm_tag("mesh-recall"));
    assert_eq!(norm_tag(" mesh recall "), norm_tag("MESH-RECALL"));
    assert_ne!(norm_tag("mesh"), norm_tag("mesh-recall"), "no substring over-match");
}

#[test]
fn norm_tag_exact_value() {
    assert_eq!(norm_tag("  Mesh_Recall now "), "mesh-recall-now");
}

#[test]
fn audit_action_gates_mutations_only() {
    assert_eq!(audit_action("remember", None), Some("remember"));
    assert_eq!(audit_action("dream_run", None), Some("dream_run"));
    assert_eq!(audit_action("recall", None), None);
    assert_eq!(audit_action("query_audit", None), None);
    assert_eq!(audit_action("find_relevant_procedures", None), None);
    // describe_image mutates only when it remembers.
    assert_eq!(audit_action("describe_image", None), None);
    assert_eq!(audit_action("describe_image", Some(true)), Some("describe_image"));
    assert_eq!(audit_action("describe_image", Some(false)), None);
}

#[test]
fn audit_memory_id_prefers_args_then_result() {
    let none4: Vec<Option<String>> = vec![None, None, None, None];
    let args = vec![Some("mem_a".to_string()), None, None, None];
    let result = vec![None, None, None, None, Some("mem_b".to_string())];
    assert_eq!(audit_memory_id(&args, &result).as_deref(), Some("mem_a"));
    assert_eq!(audit_memory_id(&none4, &result).as_deref(), Some("mem_b"));
    let result = vec![None, None, Some("ep_1".to_string()), None, None];
    assert_eq!(audit_memory_id(&none4, &result).as_deref(), Some("ep_1"));
    let result: Vec<Option<String>> = vec![None, None, None, None, None];
    assert_eq!(audit_memory_id(&none4, &result), None);
}

#[test]
fn audit_details_previews_and_caps() {
    let long = "x".repeat(300);
    let d = audit_details(Some(&long), None, None).unwrap();
    assert_eq!(d.chars().count(), 121, "120 chars + ellipsis");
    assert!(d.ends_with('…'));
    assert!(audit_details(None, None, None).is_none());
    assert_eq!(audit_details(None, Some("summary"), Some("desc")).as_deref(), Some("summary"));
}

#[test]
fn error_codes_follow_the_message() {
    assert_eq!(error_code("tool X: Not Implemented yet"), METHOD_NOT_FOUND);
    assert_eq!(error_code("'content' is REQUIRED"), INVALID_PARAMS);
    assert_eq!(error_code("sqlite busy"), INTERNAL_ERROR);
}

#[test]
fn truncate_block_marks_cuts() {
    assert_eq!(truncate_block("abcdef", 3), "abc…");
    assert_eq!(truncate_block("abc", 3), "abc");
}

#[test]
fn scopes_from_agent_ids() {
    let s = scope_from(Some("FORGE"));
    assert_eq!(s.agent_id.as_ref().map(|a| a.0.as_str()), Some("FORGE"));
    assert!(scope_from(Some("")).agent_id.is_none());
    assert!(scope_from(None).agent_id.is_none());
    assert!(agent_scope(Some("x")).agent_id.is_some());
    assert!(!agent_scope(None).shared_only);
}

#[test]
fn link_types_and_visibility_parse() {
    assert_eq!(parse_link_type("causal"), LinkType::Causal);
    assert_eq!(parse_link_type("part_of"), LinkType::PartOf);
    assert_eq!(parse_link_type("Causal"), LinkType::Semantic);
    assert_eq!(parse_visibility_opt(None).ok(), Some(None));
    assert_eq!(parse_visibility_opt(Some("PRIVATE")).ok(), Some(Some(Visibility::Private)));
    assert_eq!(parse_visibility_opt(Some("thread")).ok(), Some(Some(Visibility::Thread)));
    let err = parse_visibility_opt(Some("Public")).err().unwrap();
    assert_eq!(err.0, "public");
    assert_eq!(err.message(), "unknown visibility 'public' (private|shared|thread)");
}

#[test]
fn http_defaults_and_messages() {
    assert_eq!(default_max_llm_calls(), 20);
    assert_eq!(default_limit(), 50);
    assert_eq!(default_top_k(), 10);
    assert_eq!(not_found("mem_1"), "not found: mem_1");
    assert_eq!(head_chars("a🦀bc", 2), "a🦀");
    assert!(ct_eq("token", "token"));
    assert!(!ct_eq("token", "tokem"));
    assert!(!ct_eq("token", "tok"));
}

#[test]
fn outcome_ledger_counts_uses() {
    assert_eq!(record_outcome(None, true), (1, 0));
    assert_eq!(record_outcome(Some((2, 3)), false), (2, 4));
}

#[test]
fn framing_decisions() {
    assert_eq!(frame_step(0, false, 10), FrameStep::Eof);
    assert_eq!(frame_step(10, false, 10), FrameStep::Drain);
    assert_eq!(frame_step(10, true, 10), FrameStep::Parse);
    assert_eq!(frame_step(3, false, 10), FrameStep::Parse);
    assert_eq!(drain_step(5, b""), (5, 0, true));
    assert_eq!(drain_step(5, b"abc\ndef"), (9, 4, true));
    assert_eq!(drain_step(5, b"abc"), (8, 3, false));
}

#[test]
fn coerce_str_list_accepts_array_and_bare_string() {
    let s = |x: &str| JsonValue::Str(x.to_string());
    assert_eq!(coerce_str_list(&JsonValue::Array(vec![s("a"), s("b")])), vec!["a", "b"]);
    assert_eq!(coerce_str_list(&s("urgent")), vec!["urgent"]);
    assert!(coerce_str_list(&JsonValue::Null).is_empty());
    assert!(coerce_str_list(&JsonValue::Number("42".to_string())).is_empty());
    // mixed array drops non-strings
    assert_eq!(
        coerce_str_list(&JsonValue::Array(vec![s("a"), JsonValue::Number("1".to_string()), s("b")])),
        vec!["a", "b"]
    );
}

fn recalled(content: &str, memory_type: MemoryType, tags: &[&str]) -> Recalled {
    Recalled {
        content: content.to_string(),
        memory_type,
        tags: tags.iter().map(|t| t.to_string()).collect(),
    }
}

fn intention(sal: &str, content: &str, tags: &[&str]) -> Intention {
    Intention {
        salience_text: sal.to_string(),
        content: content.to_string(),
        tags: tags.iter().map(|t| t.to_string()).collect(),
    }
}

#[test]
fn bootstrap_budget_by_mode() {
    assert_eq!(bootstrap_budget("minimal", 5000), 1000);
    assert_eq!(bootstrap_budget("full", 5000), 4500);
    assert_eq!(bootstrap_budget("standard", 5000), 2000);
    assert_eq!(bootstrap_budget("anything", 5000), 2000);
    assert_eq!(bootstrap_budget("full", 300), 300);
}

#[test]
fn bootstrap_empty_brain() {
    let b = assemble_bootstrap("", "standard", 5000, &vec![], &vec![]);
    assert_eq!(b.max_tokens, 2000);
    assert_eq!(b.total_tokens, 0);
    assert!(b.sections_loaded.is_empty());
    assert_eq!(
        b.assembled_block,
        "# Cognitive Bootstrap — mode: standard | ~0/2000 tokens | sections: none\n\n(No dynamic priming yet — empty brain or no query match. Static soul kernel still applies.)"
    );
    assert_eq!(b.mode, "standard");
    assert_eq!(b.query, "");
}

#[test]
fn bootstrap_sections_in_priority_order() {
    let ints = vec![
        intention("0.90", "Ship the release", &[]),
        intention("0.80", "Old plan", &["status:resolved"]),
    ];
    let hits = vec![
        recalled("Left off at the parser", MemoryType::Episodic, &["session_note"]),
        recalled("Plain way", MemoryType::Procedural, &["rust"]),
        recalled("Distilled skill", MemoryType::Schematic, &["skill"]),
        recalled("Champion way", MemoryType::Procedural, &["skill_champion"]),
        recalled("A fact", MemoryType::Semantic, &[]),
    ];
    let b = assemble_bootstrap("parser", "full", 10_000, &ints, &hits);
    assert_eq!(
        b.sections_loaded,
        vec!["intentions(1)", "sessions(1)", "skills(1)", "procedures(2)", "memories(1)"]
    );
    let blocks = [
        "## Open intentions (1)\n- (salience 0.90) Ship the release",
        "## Where you left off\n- Left off at the parser",
        "## Skills (distilled competence)\n- Distilled skill",
        "## Relevant procedures\n- Champion way\n- Plain way",
        "## Relevant memories\n- A fact",
    ];
    let spent: usize = blocks.iter().map(|b| b.len() / 4).sum();
    assert_eq!(b.total_tokens, spent);
    let header = format!(
        "# Cognitive Bootstrap — mode: full | ~{spent}/4500 tokens | sections: intentions(1), sessions(1), skills(1), procedures(2), memories(1)"
    );
    assert_eq!(b.assembled_block, format!("{header}\n\n{}", blocks.join("\n\n")));
    // Without a query the recalled memories are not used.
    let q = assemble_bootstrap("", "full", 10_000, &ints, &hits);
    assert_eq!(q.sections_loaded, vec!["intentions(1)"]);
}

#[test]
fn bootstrap_passes_over_what_does_not_fit() {
    let long = "x".repeat(200);
    let ints = vec![intention("0.90", &long, &[])];
    let hits = vec![recalled("A fact", MemoryType::Semantic, &[])];
    // The intentions block costs far more than 10 tokens; the memories block fits.
    let b = assemble_bootstrap("q", "minimal", 10, &ints, &hits);
    assert_eq!(b.max_tokens, 10);
    assert_eq!(b.sections_loaded, vec!["memories(1)"]);
    assert_eq!(b.total_tokens, "## Relevant memories\n- A fact".len() / 4);
}

#[test]
fn bootstrap_caps_and_clips_items() {
    let hits: Vec<Recalled> = (0..7).map(|i| recalled(&format!("fact {i}"), MemoryType::Semantic, &[])).collect();
    let b = assemble_bootstrap("q", "full", 10_000, &vec![], &hits);
    assert_eq!(b.sections_loaded, vec!["memories(5)"]);
    let long = "y".repeat(300);
    let b = assemble_bootstrap("q", "full", 10_000, &vec![], &vec![recalled(&long, MemoryType::Semantic, &[])]);
    assert!(b.assembled_block.ends_with(&format!("- {}…", "y".repeat(240))));
}

#[test]
fn edit_access_applies_owner_then_visibility() {
    let owner = Some(AgentId("alice".to_string()));
    let r = edit_access(owner.clone(), Visibility::Shared, None, Some("PRIVATE")).ok().unwrap();
    assert_eq!((r.0.map(|a| a.0), r.1), (Some("alice".to_string()), Visibility::Private));
    let r = edit_access(None, Visibility::Shared, Some("  bob "), Some("private")).ok().unwrap();
    assert_eq!((r.0.map(|a| a.0), r.1), (Some("bob".to_string()), Visibility::Private));
    let r = edit_access(owner.clone(), Visibility::Private, Some("   "), None).ok().unwrap();
    assert_eq!((r.0.map(|a| a.0), r.1), (Some("alice".to_string()), Visibility::Private));
    match edit_access(None, Visibility::Shared, None, Some("private")) {
        Err(e @ AccessEditError::OwnerlessPrivate) => assert_eq!(
            e.message(),
            "refusing to privatize an owner-less memory (it would be visible to no one) — pass set_agent_id to attribute it first"
        ),
        _ => panic!("an owner-less memory must not become private"),
    }
    match edit_access(owner, Visibility::Shared, None, Some("Public")) {
        Err(e @ AccessEditError::UnknownVisibility(_)) => {
            assert_eq!(e.message(), "unknown visibility 'public' (private|shared|thread)")
        }
        _ => panic!("unknown visibility must be refused"),
    }
    let r = edit_access(None, Visibility::Private, None, Some("thread")).ok().unwrap();
    assert_eq!((r.0.is_none(), r.1), (true, Visibility::Thread));
}

#[test]
fn projection_resolves_forward_only() {
    let now_dt = chrono::Utc::now();
    let now = (now_dt.timestamp(), now_dt.timestamp_subsec_nanos());
    let (t, p) = resolve_projection(None, now).ok().unwrap();
    assert!((t, p) == (now, false));

    let future = now_dt + chrono::Duration::days(90);
    let (t, p) = resolve_projection(Some(&future.to_rfc3339()), now).ok().unwrap();
    assert!(p);
    assert_eq!(t, (future.timestamp(), future.timestamp_subsec_nanos()));

    let past = now_dt - chrono::Duration::days(30);
    let (t, p) = resolve_projection(Some(&past.to_rfc3339()), now).ok().unwrap();
    assert!(p);
    assert_eq!(t, now);

    assert!(resolve_projection(Some("not-a-time"), now).is_err());
}

#[test]
fn projection_reads_offsets_and_reports_errors() {
    let r = resolve_projection(Some("2030-01-01T00:00:00Z"), (0, 0)).ok().unwrap();
    assert_eq!(r, ((1_893_456_000, 0), true));
    let r = resolve_projection(Some("2030-01-01T02:00:00.5+02:00"), (0, 0)).ok().unwrap();
    assert_eq!(r, ((1_893_456_000, 500_000_000), true));
    match resolve_projection(Some("yesterday"), (0, 0)) {
        Err(e) => assert!(e.0.starts_with("bad ?at= (want RFC3339): ")),
        Ok(_) => panic!("garbage must be refused"),
    }
}

#[test]
fn export_cap_is_clamped() {
    assert_eq!(export_cap(None), 4000);
    assert_eq!(export_cap(Some(0)), 1);
    assert_eq!(export_cap(Some(50)), 50);
    assert_eq!(export_cap(Some(1_000_000)), 20_000);
}

#[test]
fn resolving_replaces_status_tags() {
    let tags: Vec<String> = ["intention", "status:open", "urgent", "status:snoozed"].iter().map(|s| s.to_string()).collect();
    let once = resolved_tags(&tags);
    assert_eq!(once, vec!["intention", "urgent", "status:resolved"]);
    assert_eq!(resolved_tags(&once), once);
    assert_eq!(resolved_tags(&vec![]), vec!["status:resolved"]);
}

fn owned(v: &[&str]) -> Vec<String> {
    v.iter().map(|s| s.to_string()).collect()
}

fn procedure(tags: &[&str], metadata: &str, content: &str) -> ProcedureText {
    ProcedureText { tags: owned(tags), metadata_text: metadata.to_string(), content: content.to_string() }
}

#[test]
fn procedure_lookup_matches_normalised_tags_and_concepts() {
    let p = procedure(&["Mesh_Recall", "ops"], "{\"concepts\":[\"Rollback\"]}", "Restart the Service cleanly");
    assert!(procedure_matches(&owned(&["mesh-recall"]), &vec![], &p));
    assert!(procedure_matches(&owned(&[" MESH RECALL "]), &vec![], &p));
    assert!(!procedure_matches(&owned(&["mesh"]), &vec![], &p));
    assert!(procedure_matches(&vec![], &owned(&["rollback"]), &p));
    assert!(procedure_matches(&vec![], &owned(&["SERVICE"]), &p));
    assert!(!procedure_matches(&vec![], &owned(&["database"]), &p));
    assert!(!procedure_matches(&vec![], &vec![], &p));
    let snap = procedure(&["ops", "undo_snapshot"], "{}", "ops");
    assert!(!procedure_matches(&owned(&["ops"]), &owned(&["ops"]), &snap));
}

#[test]
fn schema_lookup_is_exact() {
    let tags = owned(&["methodology", "dev"]);
    let meta = "{\"concepts\":[\"Feedback\"]}";
    assert!(schema_matches(&owned(&["dev"]), &vec![], &tags, meta));
    assert!(!schema_matches(&owned(&["Dev"]), &vec![], &tags, meta));
    assert!(schema_matches(&vec![], &owned(&["Feedback"]), &tags, meta));
    assert!(!schema_matches(&vec![], &owned(&["feedback"]), &tags, meta));
    assert!(!schema_matches(&vec![], &vec![], &tags, meta));
}

#[test]
fn outcome_tags_flag_and_clear() {
    let t = owned(&["procedure", "prune_candidate", "ops"]);
    assert_eq!(outcome_tags(&t, true, false), owned(&["procedure", "ops"]));
    assert_eq!(outcome_tags(&t, false, true), t);
    let u = owned(&["procedure"]);
    assert_eq!(outcome_tags(&u, false, true), owned(&["procedure", "prune_candidate"]));
    assert_eq!(outcome_tags(&u, false, false), u);
    assert_eq!(outcome_tags(&u, true, true), u);
}

#[test]
fn session_notes_are_tagged_and_filtered() {
    assert_eq!(
        session_tags(None, None, None),
        owned(&["session_note", "priority:MEDIUM", "session_type:general"])
    );
    assert_eq!(
        session_tags(Some("high"), Some("debug"), Some("scout")),
        owned(&["session_note", "priority:HIGH", "session_type:debug", "agent:scout"])
    );
    assert_eq!(
        session_tags(Some("Low"), None, Some("")),
        owned(&["session_note", "priority:LOW", "session_type:general"])
    );
    let t = owned(&["session_note", "priority:HIGH", "session_type:debug"]);
    assert!(session_matches(&t, None, None));
    assert!(session_matches(&t, Some("high"), Some("debug")));
    assert!(!session_matches(&t, Some("low"), None));
    assert!(!session_matches(&t, None, Some("Debug")));
    assert!(!session_matches(&owned(&["priority:HIGH"]), Some("high"), None));
}

#[test]
fn message_tags_name_sender_and_recipient() {
    assert_eq!(message_tags("bob", Some("alice"), Some("carol")), owned(&["message", "to:bob", "from:alice"]));
    assert_eq!(message_tags("bob", None, Some("carol")), owned(&["message", "to:bob", "from:carol"]));
    assert_eq!(message_tags("bob", None, None), owned(&["message", "to:bob", "from:unknown"]));
}

#[test]
fn export_edges_keeps_links_inside_the_export() {
    let ids = vec!["a".to_string(), "b".to_string(), "c".to_string()];
    let links = vec![
        ("a".to_string(), "b".to_string()),
        ("a".to_string(), "z".to_string()),
        ("z".to_string(), "c".to_string()),
        ("c".to_string(), "a".to_string()),
        ("b".to_string(), "b".to_string()),
    ];
    assert_eq!(cerebro::api::export_edges(&ids, &links), vec![0, 3, 4]);
    assert!(cerebro::api::export_edges(&vec![], &links).is_empty());
}

#[test]
fn session_step_follows_the_server_rules() {
    // The first frame must be initialize.
    assert_eq!(session_step(true, FrameKind::Message, true, Some("initialize")), SessionAction::Initialize);
    assert_eq!(session_step(true, FrameKind::Message, true, Some("tools/list")), SessionAction::MethodNotFound);
    assert_eq!(session_step(true, FrameKind::Malformed, false, None), SessionAction::ParseErrorAndStop);
    assert_eq!(session_step(true, FrameKind::Eof, false, None), SessionAction::Stop);
    // Later frames.
    assert_eq!(session_step(false, FrameKind::Malformed, false, None), SessionAction::ParseError);
    assert_eq!(session_step(false, FrameKind::Oversized, false, None), SessionAction::ParseError);
    assert_eq!(session_step(false, FrameKind::Message, false, Some("tools/list")), SessionAction::Ignore);
    assert_eq!(
        session_step(false, FrameKind::Message, true, Some("notifications/initialized")),
        SessionAction::Ignore
    );
    assert_eq!(session_step(false, FrameKind::Message, true, Some("tools/list")), SessionAction::ToolsList);
    assert_eq!(session_step(false, FrameKind::Message, true, Some("tools/call")), SessionAction::ToolsCall);
    assert_eq!(session_step(false, FrameKind::Message, true, Some("ping")), SessionAction::MethodNotFound);
    assert_eq!(session_step(false, FrameKind::Message, true, None), SessionAction::MethodNotFound);
    assert_eq!(session_step(false, FrameKind::Eof, false, None), SessionAction::Stop);
}

#[test]
fn handshake_guards_on_initialize_method() {
    // A non-initialize first message must get method_not_found, not an init reply.
    assert_eq!(session_step(true, FrameKind::Message, true, Some("tools/list")), SessionAction::MethodNotFound);
    assert_eq!(METHOD_NOT_FOUND, -32601);
}
