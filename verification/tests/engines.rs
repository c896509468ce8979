use cerebro::engines::amygdala::AffectEngine;
use cerebro::engines::association::LinkEngine;
use cerebro::engines::cerebellum::ProceduralEngine;
use cerebro::engines::dream::{
    has_pending_merge, has_pending_variant, is_skill_champion, json_span, is_structural_tag, outcome_stats,
    same_prefix, strip_fences, topical_tag_map, truncate_chars, DreamEngine, LlmBudget, ProcedureView,
    RetentionCaps, LLM_BUDGET_PATTERN, MAX_LLM_CALLS,
};
use cerebro::engines::hippocampus::EpisodicEngine;
use cerebro::engines::neocortex::SchemaEngine;
use cerebro::engines::prefrontal::ExecutiveEngine;
use cerebro::engines::temporal::SemanticEngine;
use cerebro::engines::thalamus::GatingEngine;
use cerebro::engines::dream_steps::{
    extracted_tags, is_known, merge_prompt, numbered_excerpts, pattern_prompt, proposal, prune_check,
    refine_prompt, rem_excerpt, rem_prompt, rem_verdict, reply_tags, schema_prompt, schema_tags, skill_prompt, skill_tags,
    sorted_unique, variant_tags, verdict_tags, PruneCheck, Verdict, PROMPT_REM_CONNECT, SYSTEM_DREAM,
};
use cerebro::json::JsonValue;
use cerebro::types::{EmotionalValence, LinkType, MemoryLayer, MemoryType};

#[test]
fn cerebellum_engine_constructs() {
    let _ = ProceduralEngine::new();
}

#[test]
fn hippocampus_engine_constructs() {
    let _ = EpisodicEngine::new();
}

#[test]
fn other_engines_construct() {
    let _ = ExecutiveEngine::new();
    let _ = LinkEngine::new();
    let _ = AffectEngine::new();
    let _ = SchemaEngine::new();
}

#[test]
fn get_tag_int_present() {
    let tags = vec!["support_count:3".to_string(), "other:tag".to_string()];
    assert_eq!(SchemaEngine::get_tag_int(&tags, "support_count", 0), 3);
}

#[test]
fn get_tag_int_missing_returns_default() {
    let tags = vec!["other:tag".to_string()];
    assert_eq!(SchemaEngine::get_tag_int(&tags, "support_count", 7), 7);
}

#[test]
fn get_tag_int_empty_tags() {
    assert_eq!(SchemaEngine::get_tag_int(&[], "support_count", 0), 0);
}

#[test]
fn set_tag_int_adds_new() {
    let tags: Vec<String> = vec!["existing:tag".to_string()];
    let result = SchemaEngine::set_tag_int(&tags, "support_count", 5);
    assert!(result.contains(&"support_count:5".to_string()));
    assert!(result.contains(&"existing:tag".to_string()));
}

#[test]
fn set_tag_int_replaces_existing() {
    let tags = vec!["support_count:2".to_string(), "other:x".to_string()];
    let result = SchemaEngine::set_tag_int(&tags, "support_count", 9);
    assert!(result.contains(&"support_count:9".to_string()));
    assert!(!result.contains(&"support_count:2".to_string()), "old value should be gone");
    assert_eq!(result.iter().filter(|t| t.starts_with("support_count:")).count(), 1);
}

#[test]
fn set_then_get_tag_int_reads_back_the_value() {
    let tags = vec!["support_count:2".to_string(), "x".to_string()];
    let result = SchemaEngine::set_tag_int(&tags, "support_count", -41);
    assert_eq!(SchemaEngine::get_tag_int(&result, "support_count", 0), -41);
    assert_eq!(result, vec!["x".to_string(), "support_count:-41".to_string()]);
}

#[test]
fn extract_concepts_filters_stop_words() {
    let concepts = SemanticEngine::new().extract_concepts("the quick brown fox jumps over the lazy dog", 10);
    assert!(!concepts.contains(&"the".to_string()), "stop word should be filtered");
    assert!(!concepts.contains(&"over".to_string()), "stop word should be filtered");
    assert!(concepts.contains(&"quick".to_string()) || concepts.contains(&"brown".to_string()));
}

#[test]
fn extract_concepts_short_words_excluded() {
    // "a", "is" are stop words; "go", "do" are 2 chars — excluded by len > 2
    let concepts = SemanticEngine::new().extract_concepts("go do the work is it", 10);
    assert!(!concepts.iter().any(|c| c.len() <= 2));
}

#[test]
fn extract_concepts_respects_max() {
    let content = "rust memory graph storage sqlite vector engine thalamus amygdala temporal";
    let concepts = SemanticEngine::new().extract_concepts(content, 3);
    assert!(concepts.len() <= 3);
}

#[test]
fn extract_concepts_bigrams_get_boost() {
    // "Rust Memory" is a bigram of title-case words — should appear boosted
    let concepts = SemanticEngine::new().extract_concepts("Rust Memory is the best Rust Memory system", 10);
    assert!(concepts.contains(&"rust memory".to_string()), "bigram should be extracted");
}

#[test]
fn classify_type_procedural() {
    assert_eq!(GatingEngine::new().classify_type("step 1: open the file"), MemoryType::Procedural);
    assert_eq!(GatingEngine::new().classify_type("how to deploy the service"), MemoryType::Procedural);
}

#[test]
fn classify_type_affective() {
    assert_eq!(GatingEngine::new().classify_type("I felt amazing after the breakthrough"), MemoryType::Affective);
}

#[test]
fn classify_type_prospective() {
    assert_eq!(GatingEngine::new().classify_type("need to revisit this later"), MemoryType::Prospective);
}

#[test]
fn classify_type_episodic() {
    assert_eq!(GatingEngine::new().classify_type("then after we deployed the service"), MemoryType::Episodic);
}

#[test]
fn classify_type_default_semantic() {
    assert_eq!(GatingEngine::new().classify_type("the graph database stores nodes and edges"), MemoryType::Semantic);
}

#[test]
fn length_gate_counts_trimmed_bytes() {
    let g = GatingEngine::new();
    assert!(!g.passes_length_gate("   short   "));
    assert!(g.passes_length_gate("ten bytes!"));
    assert!(g.passes_length_gate("ééééé"));
}

#[test]
fn positive_valence() {
    let v = AffectEngine::new().analyze_valence("amazing breakthrough, everything works perfectly");
    assert_eq!(v, EmotionalValence::Positive);
}

#[test]
fn negative_valence() {
    let v = AffectEngine::new().analyze_valence("terrible crash error, totally stuck");
    assert_eq!(v, EmotionalValence::Negative);
}

#[test]
fn mixed_valence() {
    let v = AffectEngine::new().analyze_valence("amazing result but there was a bug in the fail path");
    assert_eq!(v, EmotionalValence::Mixed);
}

#[test]
fn neutral_valence() {
    let v = AffectEngine::new().analyze_valence("the graph database stores nodes and links");
    assert_eq!(v, EmotionalValence::Neutral);
}

#[test]
fn structural_tags_excluded_topical_kept() {
    for t in [
        "procedure", "skill", "schema", "dream_distilled", "support_count:3",
        "session_note", "priority:HIGH", "session_type:technical",
        "agent:FORGE", "source:report.pdf",
    ] {
        assert!(is_structural_tag(t), "{t} should be structural");
    }
    for t in ["slint", "async", "debugging", "rust", "next-session"] {
        assert!(!is_structural_tag(t), "{t} should be topical");
    }
}

#[test]
fn truncate_mid_emoji_does_not_panic() {
    let s = "a🦀🦀🦀🦀";
    for n in 0..=10 {
        let out = truncate_chars(s, n);
        assert!(s.starts_with(out));
    }
    assert_eq!(truncate_chars(s, 1), "a");
    assert_eq!(truncate_chars(s, 2), "a🦀");
    assert_eq!(truncate_chars(s, 100), s);
}

#[test]
fn same_prefix_compares_forty_characters() {
    let dup = "identical opening that runs past forty characters for sure, then diverges";
    assert!(same_prefix(dup, "identical opening that runs past forty characters, elsewhere"));
    assert!(!same_prefix("approach one", "approach two"));
    assert!(same_prefix("same", "same"));
}

#[test]
fn is_skill_champion_reads_the_tag() {
    assert!(is_skill_champion(&["deploy".to_string(), "skill_champion".to_string()]));
    assert!(!is_skill_champion(&["deploy".to_string()]));
}

fn view(tags: &[&str], outcomes: Option<(u32, u32)>, derived_from: &[&str]) -> ProcedureView {
    ProcedureView {
        id: "p".to_string(),
        content: "how I did X".to_string(),
        tags: tags.iter().map(|t| t.to_string()).collect(),
        outcomes,
        derived_from: derived_from.iter().map(|t| t.to_string()).collect(),
    }
}

#[test]
fn has_pending_variant_only_counts_ungraded_children() {
    let parent = view(&["deploy"], Some((1, 5)), &[]);
    let child = view(&["procedure", "dream_mutated"], None, &["pid"]);
    assert!(has_pending_variant(&[parent, child], "pid"));
    let parent = view(&["deploy"], Some((1, 5)), &[]);
    let graded_child = view(&["procedure", "dream_mutated"], Some((2, 1)), &["pid"]);
    assert!(!has_pending_variant(&[parent, graded_child], "pid"));
}

#[test]
fn has_pending_merge_only_counts_ungraded_children_in_the_niche() {
    assert!(has_pending_merge(&[view(&["procedure", "dream_merged", "deploy"], None, &[])], "deploy"));
    assert!(!has_pending_merge(&[view(&["procedure", "dream_merged", "deploy"], Some((1, 0)), &[])], "deploy"));
    assert!(!has_pending_merge(&[view(&["procedure", "dream_merged", "other"], None, &[])], "deploy"));
}

#[test]
fn outcome_ledgers() {
    assert_eq!(outcome_stats(None), None);
    assert_eq!(outcome_stats(Some((0, 0))), None);
    assert_eq!(outcome_stats(Some((3, 1))), Some((3, 1)));
    assert_eq!(outcome_stats(Some((1u64 << 32, 0))), None);
}

#[test]
fn strip_fences_removes_code_fences() {
    assert_eq!(strip_fences("  ```json\n[1, 2]\n```  "), "[1, 2]");
    assert_eq!(strip_fences("  plain  "), "plain");
    assert_eq!(strip_fences("a\n  ```\nb"), "a\nb");
}

#[test]
fn retention_caps_env_parse() {
    // Unset → defaults.
    assert_eq!(RetentionCaps::from_settings(None, None, None), RetentionCaps::default_caps());
    // Explicit values win — including 0 (keep forever).
    let caps = RetentionCaps::from_settings(Some("3"), Some("0"), Some("junk"));
    assert_eq!(caps.versions_per_memory, 3);
    assert_eq!(caps.dream_reports, 0);
    assert_eq!(caps.audit_rows, RetentionCaps::default_caps().audit_rows);
}

#[test]
fn retention_caps_parse_like_usize() {
    let caps = RetentionCaps::from_settings(Some(" +7 "), Some("-1"), Some(""));
    assert_eq!(caps, RetentionCaps { versions_per_memory: 7, dream_reports: 90, audit_rows: 20000 });
}

#[test]
fn llm_budget_caps_calls() {
    let mut b = LlmBudget::new(100);
    let mut remaining = b.phase_allowance(LLM_BUDGET_PATTERN);
    assert_eq!(remaining, 12);
    let mut calls = 0;
    while b.may_call(remaining, 0) {
        b.record_call(&mut remaining);
        calls += 1;
    }
    assert_eq!(calls, 12);
    let mut remaining = b.phase_allowance(100);
    assert_eq!(remaining, MAX_LLM_CALLS);
    while b.may_call(remaining, 1) {
        b.record_call(&mut remaining);
    }
    assert_eq!(b.used(), MAX_LLM_CALLS);
    let small = LlmBudget::new(3);
    assert_eq!(small.phase_allowance(LLM_BUDGET_PATTERN), 3);
}

#[test]
fn dream_engine_holds_its_key() {
    let e = DreamEngine::new(Some("k".to_string()));
    assert_eq!(e.api_key().map(|s| s.as_str()), Some("k"));
    assert!(DreamEngine::new(None).api_key().is_none());
}

#[test]
fn topical_tag_map_skips_bookkeeping_tags() {
    let a = vec!["session_note".to_string(), "priority:HIGH".to_string(), "cerebro".to_string()];
    let b = vec!["session_note".to_string(), "cerebro".to_string(), "agent:FORGE".to_string()];
    let map = topical_tag_map(&vec![a, b]);
    assert_eq!(map.len(), 1, "only the topical tag clusters");
    assert_eq!(map[0].0, "cerebro");
    assert_eq!(map[0].1, vec![0, 1]);
}

#[test]
fn topical_tag_map_orders_by_first_appearance() {
    let map = topical_tag_map(&vec![
        vec!["rust".to_string(), "async".to_string()],
        vec!["async".to_string(), "skill".to_string()],
        vec!["rust".to_string()],
    ]);
    assert_eq!(map, vec![("rust".to_string(), vec![0, 2]), ("async".to_string(), vec![0, 1])]);
}

#[test]
fn json_span_takes_first_open_to_last_close() {
    assert_eq!(json_span("Sure! [1, 2] and [3]. Done", '[', ']').as_deref(), Some("[1, 2] and [3]"));
    assert_eq!(json_span("here: {\"a\": {\"b\": 1}} ok", '{', '}').as_deref(), Some("{\"a\": {\"b\": 1}}"));
    assert_eq!(json_span("no brackets", '[', ']'), None);
    assert_eq!(json_span("] before [", '[', ']'), None);
    assert_eq!(json_span("only [ open", '[', ']'), None);
}

fn jtext(s: &str) -> JsonValue {
    JsonValue::Str(s.to_string())
}

fn jobject(fields: Vec<(&str, JsonValue)>) -> JsonValue {
    JsonValue::Object(fields.into_iter().map(|(k, v)| (k.to_string(), v)).collect())
}

fn strings(v: &[&str]) -> Vec<String> {
    v.iter().map(|s| s.to_string()).collect()
}

#[test]
fn numbered_excerpts_cut_and_count() {
    let contents = strings(&["alpha", "beta gamma", "delta"]);
    assert_eq!(numbered_excerpts(&contents, 2, 4), "[0] alph\n[1] beta");
    assert_eq!(numbered_excerpts(&contents, 10, 200), "[0] alpha\n[1] beta gamma\n[2] delta");
    assert_eq!(numbered_excerpts(&strings(&["ééé"]), 10, 2), "[0] éé");
    assert_eq!(numbered_excerpts(&Vec::new(), 10, 200), "");
    let many: Vec<String> = (0..12).map(|i| format!("m{i}")).collect();
    let block = numbered_excerpts(&many, 10, 200);
    assert_eq!(block.lines().count(), 10);
    assert!(block.ends_with("[9] m9"));
}

#[test]
fn prompts_fill_their_slots() {
    let p = pattern_prompt("[0] x");
    assert!(p.contains("Memories:\n[0] x\n") && !p.contains("{memories}"));
    assert!(p.starts_with("Analyze these memories and extract reusable patterns or procedures."));
    let s = schema_prompt("[0] y");
    assert!(s.contains("[0] y") && !s.contains("{memories}"));
    let k = skill_prompt("[0] z");
    assert!(k.contains("Successful procedures:\n[0] z\n") && !k.contains("{procedures}"));
    let long = "x".repeat(500);
    let r = refine_prompt(&long);
    assert!(r.contains(&"x".repeat(400)) && !r.contains(&"x".repeat(401)));
    let m = merge_prompt("first way", "second way");
    assert!(m.contains("Procedure A:\nfirst way\n\nProcedure B:\nsecond way\n"));
    assert!(!m.contains("{procedure_a}") && !m.contains("{procedure_b}"));
    assert!(SYSTEM_DREAM.ends_with("Respond in structured JSON only."));
    assert!(PROMPT_REM_CONNECT.contains("{memory_a}"));
}

#[test]
fn proposal_needs_ten_trimmed_bytes() {
    assert_eq!(proposal(&jobject(vec![("content", jtext("  Check the loop first.  "))])).as_deref(), Some("Check the loop first."));
    assert_eq!(proposal(&jobject(vec![("content", jtext("   too short   "))])), None);
    assert_eq!(proposal(&jobject(vec![("content", jtext("0123456789"))])).as_deref(), Some("0123456789"));
    assert_eq!(proposal(&jobject(vec![("content", jtext("012345678"))])), None);
    assert_eq!(proposal(&jobject(vec![("content", JsonValue::Number("1234567890123".to_string()))])), None);
    assert_eq!(proposal(&jtext("a string reply that is long")), None);
}

#[test]
fn reply_tags_only_from_an_array() {
    let r = jobject(vec![("tags", JsonValue::Array(vec![jtext("a"), JsonValue::Number("1".to_string()), jtext("b")]))]);
    assert_eq!(reply_tags(&r), Some(strings(&["a", "b"])));
    assert_eq!(reply_tags(&jobject(vec![("tags", jtext("a"))])), None);
    assert_eq!(reply_tags(&jobject(vec![])), None);
    assert_eq!(reply_tags(&jobject(vec![("tags", JsonValue::Array(vec![]))])), Some(vec![]));
}

#[test]
fn is_known_compares_the_first_forty_chars() {
    let existing = strings(&["When debugging async code, check the event loop first, then verify awaits"]);
    assert!(is_known("When debugging async code, check the event queue instead", &existing));
    assert!(!is_known("When debugging sync code, check the event loop first", &existing));
    assert!(is_known("When debugging", &existing));
    assert!(!is_known("anything", &Vec::new()));
}

#[test]
fn dream_tag_lists() {
    assert_eq!(extracted_tags(&None, "rust"), strings(&["procedure", "dream_extracted", "rust"]));
    assert_eq!(extracted_tags(&Some(strings(&["a"])), "rust"), strings(&["procedure", "dream_extracted", "a"]));
    assert_eq!(extracted_tags(&Some(vec![]), "rust"), strings(&["procedure", "dream_extracted"]));
    assert_eq!(schema_tags(&strings(&["m"])), strings(&["schema", "support_count:0", "dream_formed", "m"]));
    assert_eq!(
        skill_tags(3, "rust", &strings(&["x"])),
        strings(&["schema", "skill", "dream_distilled", "support_count:3", "rust", "x"])
    );
}

#[test]
fn variant_tags_are_sorted_unique_and_topical() {
    let parents = strings(&["rust", "procedure", "skill_champion", "async", "support_count:4"]);
    let listed = strings(&["rust", "ops"]);
    assert_eq!(
        variant_tags("dream_mutated", &parents, &listed),
        strings(&["async", "dream_mutated", "ops", "procedure", "rust"])
    );
    let both = strings(&["zeta", "alpha", "alpha"]);
    assert_eq!(variant_tags("dream_merged", &both, &vec![]), strings(&["alpha", "dream_merged", "procedure", "zeta"]));
    assert_eq!(sorted_unique(&strings(&["b", "a", "b", "Z", "é"])), strings(&["Z", "a", "b", "é"]));
}

#[test]
fn verdict_tags_follow_the_competition() {
    let t = strings(&["rust", "procedure"]);
    assert_eq!(verdict_tags(&t, Verdict::Champion, false), (strings(&["rust", "procedure", "skill_champion"]), true));
    let c = strings(&["rust", "skill_champion"]);
    assert_eq!(verdict_tags(&c, Verdict::Champion, false), (c.clone(), false));
    assert_eq!(verdict_tags(&c, Verdict::Leave, false), (strings(&["rust"]), true));
    assert_eq!(verdict_tags(&t, Verdict::Leave, true), (t.clone(), false));
    assert_eq!(verdict_tags(&c, Verdict::Demote, false), (strings(&["rust"]), true));
    assert_eq!(verdict_tags(&c, Verdict::Demote, true), (strings(&["rust", "prune_candidate"]), true));
    let p = strings(&["prune_candidate", "skill_champion"]);
    assert_eq!(verdict_tags(&p, Verdict::Demote, true), (strings(&["prune_candidate"]), true));
}

#[test]
fn prune_check_classes() {
    let flagged = strings(&["prune_candidate"]);
    assert!(matches!(prune_check(100, 50, &flagged, MemoryLayer::Working, false), PruneCheck::Keep));
    assert!(matches!(prune_check(10, 50, &flagged, MemoryLayer::Working, false), PruneCheck::RetireDemoted));
    assert!(matches!(prune_check(50, 50, &vec![], MemoryLayer::Sensory, true), PruneCheck::RetireIfIsolated));
    assert!(matches!(prune_check(10, 50, &vec![], MemoryLayer::Sensory, false), PruneCheck::Keep));
    assert!(matches!(prune_check(10, 50, &vec![], MemoryLayer::Working, true), PruneCheck::Keep));
}

#[test]
fn rem_verdict_reads_connection_and_type() {
    let r = jobject(vec![("connected", JsonValue::Bool(true)), ("link_type", jtext("causal"))]);
    assert_eq!(rem_verdict(&r), (true, LinkType::Causal));
    let r = jobject(vec![("connected", JsonValue::Bool(true)), ("link_type", jtext("supports"))]);
    assert_eq!(rem_verdict(&r), (true, LinkType::Supports));
    let r = jobject(vec![("connected", JsonValue::Bool(false)), ("link_type", jtext("contradicts"))]);
    assert_eq!(rem_verdict(&r), (false, LinkType::Contradicts));
    let r = jobject(vec![("connected", jtext("yes")), ("link_type", jtext("part_of"))]);
    assert_eq!(rem_verdict(&r), (false, LinkType::Semantic));
    assert_eq!(rem_verdict(&JsonValue::Null), (false, LinkType::Semantic));
}

#[test]
fn rem_prompt_shows_three_hundred_bytes() {
    let long = "a".repeat(400);
    assert_eq!(rem_excerpt(&long), "a".repeat(300));
    assert_eq!(rem_excerpt("short"), "short");
    // 150 two-byte characters end exactly on byte 300.
    let wide = "é".repeat(200);
    assert_eq!(rem_excerpt(&wide), "é".repeat(150));
    // A cut that would split a character stops before it.
    let odd = format!("a{}", "é".repeat(200));
    assert_eq!(rem_excerpt(&odd), format!("a{}", "é".repeat(149)));
    assert!(rem_prompt(&odd, "x").contains(&format!("Memory A: a{}\n", "é".repeat(149))));
    let p = rem_prompt("first memory", &long);
    assert!(p.contains(&format!("Memory A: first memory\nMemory B: {}\n", "a".repeat(300))));
    assert!(!p.contains("{memory_a}") && !p.contains("{memory_b}"));
}

#[test]
fn engines_default_to_new() {
    let _ = AffectEngine::default();
    let _ = LinkEngine::default();
    let _ = ProceduralEngine::default();
    let _ = EpisodicEngine::default();
    let _ = SchemaEngine::default();
    let _ = SemanticEngine::default();
    let _ = GatingEngine::default();
}

#[test]
fn salience_keyword_hits_count_each_keyword_once() {
    let g = GatingEngine::new();
    assert_eq!(g.salience_keyword_hits("the graph has nodes"), 0);
    assert_eq!(g.salience_keyword_hits("critical bug error in the system"), 3);
    // Matched on the lowercase form; a repeated keyword counts once.
    assert_eq!(g.salience_keyword_hits("BUG bug Bug"), 1);
    assert_eq!(g.salience_keyword_hits("Lesson Learned: always remember"), 4);
}

#[test]
fn initial_layer_follows_type_then_salience() {
    let g = GatingEngine::new();
    assert_eq!(g.initial_layer(MemoryType::Procedural, false), MemoryLayer::Working);
    assert_eq!(g.initial_layer(MemoryType::Schematic, false), MemoryLayer::Working);
    assert_eq!(g.initial_layer(MemoryType::Semantic, false), MemoryLayer::Sensory);
    assert_eq!(g.initial_layer(MemoryType::Semantic, true), MemoryLayer::Working);
    assert_eq!(g.initial_layer(MemoryType::Episodic, true), MemoryLayer::Working);
}

fn concepts_of(v: &JsonValue) -> Option<Vec<String>> {
    match v {
        JsonValue::Object(fs) => fs.iter().find(|(k, _)| k == "concepts").and_then(|(_, c)| match c {
            JsonValue::Array(items) => Some(
                items
                    .iter()
                    .map(|i| match i {
                        JsonValue::Str(s) => s.clone(),
                        _ => panic!("concept is not a string"),
                    })
                    .collect(),
            ),
            _ => None,
        }),
        _ => None,
    }
}

#[test]
fn enrich_node_adds_concepts_when_empty() {
    let enriched = SemanticEngine::new().enrich_node("sqlite vector storage engine for rust", JsonValue::Null);
    let concepts = concepts_of(&enriched).expect("concepts array");
    assert!(!concepts.is_empty(), "concepts should be added");
}

#[test]
fn enrich_node_skips_when_already_set() {
    let metadata = jobject(vec![("concepts", JsonValue::Array(vec![jtext("already"), jtext("set")]))]);
    let enriched = SemanticEngine::new().enrich_node("sqlite vector storage engine for rust", metadata);
    let concepts = concepts_of(&enriched).unwrap();
    // The concepts already recorded are kept: ["already", "set"].
    assert_eq!(concepts.len(), 2);
}

#[test]
fn enrich_node_keeps_other_members_and_replaces_null_concepts() {
    let e = SemanticEngine::new();
    let metadata = jobject(vec![("source", jtext("notes.md")), ("concepts", JsonValue::Null)]);
    let enriched = e.enrich_node("Graph Database stores graph nodes", metadata);
    match &enriched {
        JsonValue::Object(fs) => {
            assert_eq!(fs.len(), 2);
            assert_eq!(fs[0].0, "source");
            assert!(matches!(&fs[0].1, JsonValue::Str(s) if s == "notes.md"));
        }
        _ => panic!("enriched metadata must be an object"),
    }
    let expected = e.extract_concepts("Graph Database stores graph nodes", 10);
    assert_eq!(concepts_of(&enriched), Some(expected));
    // Metadata that is not an object is replaced by an object.
    let from_number = e.enrich_node("Graph Database stores graph nodes", JsonValue::Number("3".to_string()));
    match &from_number {
        JsonValue::Object(fs) => assert_eq!(fs.len(), 1),
        _ => panic!("enriched metadata must be an object"),
    }
}

#[test]
fn set_member_replaces_in_place_or_appends() {
    let mut fs = vec![("a".to_string(), jtext("1")), ("b".to_string(), jtext("2"))];
    cerebro::json::set_member(&mut fs, "a".to_string(), JsonValue::Null);
    assert_eq!(fs.len(), 2);
    assert_eq!(fs[0].0, "a");
    assert!(matches!(fs[0].1, JsonValue::Null));
    cerebro::json::set_member(&mut fs, "c".to_string(), jtext("3"));
    assert_eq!(fs.len(), 3);
    assert_eq!(fs[2].0, "c");
    assert!(matches!(&fs[1].1, JsonValue::Str(s) if s == "2"));
}

#[test]
fn gate_short_content_returns_none() {
    assert!(!GatingEngine::new().passes_length_gate("too short"));
    assert!(!GatingEngine::new().passes_length_gate(""));
}

#[test]
fn gate_valid_content_returns_node() {
    assert!(GatingEngine::new().passes_length_gate("This is a valid memory about Rust programming."));
}

#[test]
fn gate_rejects_content_over_the_cap() {
    let g = GatingEngine::new();
    assert!(g.passes_length_gate(&"a".repeat(65536)));
    assert!(!g.passes_length_gate(&"a".repeat(65537)));
    // The cap counts UTF-8 bytes of the content as given.
    assert!(!g.passes_length_gate(&"é".repeat(32769)));
}

#[test]
fn assign_layer_procedural_always_working() {
    let g = GatingEngine::new();
    let salience: f32 = 0.1;
    assert_eq!(g.initial_layer(MemoryType::Procedural, salience >= 0.4), MemoryLayer::Working);
    assert_eq!(g.initial_layer(MemoryType::Schematic, salience >= 0.4), MemoryLayer::Working);
}

#[test]
fn assign_layer_low_salience_is_sensory() {
    let salience: f32 = 0.3;
    assert_eq!(GatingEngine::new().initial_layer(MemoryType::Semantic, salience >= 0.4), MemoryLayer::Sensory);
}
