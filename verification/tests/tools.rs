use cerebro::json::JsonValue;
use cerebro::route::route_check;
use cerebro::tools::{all_tool_schemas, tool_names, tool_schema};

#[test]
fn tools_list_remember_has_proper_schema() {
    let tools = all_tool_schemas();
    let remember = tools.iter().find(|t| t.name == "remember").unwrap();
    let schema: serde_json::Value = serde_json::from_str(&remember.input_schema).unwrap();
    assert_eq!(schema["type"], "object");
    assert!(schema["properties"]["content"].is_object(), "content property must exist");
    let required = schema["required"].as_array().unwrap();
    assert!(required.iter().any(|v| v == "content"), "content must be required");
}

#[test]
fn catalog_lists_every_tool_once_in_order() {
    let names = tool_names();
    assert_eq!(names.len(), 67);
    assert_eq!(names[0], "remember");
    assert_eq!(names[1], "recall");
    assert_eq!(*names.last().unwrap(), "restore_version");
    let mut sorted = names.clone();
    sorted.sort();
    sorted.dedup();
    assert_eq!(sorted.len(), 67);
    let tools = all_tool_schemas();
    assert_eq!(tools.len(), 67);
    for (t, n) in tools.iter().zip(names.iter()) {
        assert_eq!(t.name, *n);
        assert!(!t.description.starts_with("(not yet implemented)"));
        let v: serde_json::Value = serde_json::from_str(&t.input_schema).unwrap();
        assert_eq!(v["type"], "object");
    }
}

#[test]
fn unknown_tool_gets_a_placeholder_schema() {
    let t = tool_schema("no_such_tool");
    assert_eq!(t.name, "no_such_tool");
    assert_eq!(t.description, "(not yet implemented) no_such_tool");
    assert_eq!(t.input_schema, r#"{"type":"object","properties":{},"required":[]}"#);
    let r = tool_schema("recall");
    assert!(r.description.starts_with("Search your memories by meaning"));
}

fn jobj(fields: Vec<(&str, JsonValue)>) -> JsonValue {
    JsonValue::Object(fields.into_iter().map(|(k, v)| (k.to_string(), v)).collect())
}

#[test]
fn route_check_reports_the_first_missing_argument() {
    assert_eq!(route_check("remember", &jobj(vec![])), Err("content is required".to_string()));
    assert_eq!(
        route_check("remember", &jobj(vec![("content", JsonValue::Str("x".into()))])),
        Ok(())
    );
    // A wrong kind counts as missing.
    assert_eq!(
        route_check("remember", &jobj(vec![("content", JsonValue::Number("3".into()))])),
        Err("content is required".to_string())
    );
    // Checks come in order.
    assert_eq!(route_check("associate", &JsonValue::Null), Err("source_id is required".to_string()));
    assert_eq!(
        route_check("associate", &jobj(vec![("source_id", JsonValue::Str("a".into()))])),
        Err("target_id is required".to_string())
    );
    assert_eq!(
        route_check("record_procedure_outcome", &jobj(vec![("procedure_id", JsonValue::Str("p".into()))])),
        Err("success (bool) required".to_string())
    );
    assert_eq!(
        route_check("restore_version", &jobj(vec![("version_id", JsonValue::Number("1.5".into()))])),
        Err("version_id (integer) required".to_string())
    );
    assert_eq!(
        route_check("restore_version", &jobj(vec![("version_id", JsonValue::Number("-7".into()))])),
        Ok(())
    );
    assert_eq!(route_check("bulk_delete", &jobj(vec![])), Err("memory_ids (array) is required".to_string()));
    assert_eq!(route_check("cortex_stats", &JsonValue::Null), Ok(()));
    assert_eq!(route_check("memory_search", &jobj(vec![])), Err("query is required".to_string()));
    assert_eq!(route_check("memory_search", &jobj(vec![("query", JsonValue::Str("relay".into()))])), Ok(()));
    assert_eq!(
        route_check("memory_search", &jobj(vec![("content", JsonValue::Str("relay".into()))])),
        Err("query is required".to_string())
    );
    assert_eq!(route_check("memory_store", &jobj(vec![])), Err("content is required".to_string()));
    assert_eq!(route_check("ingest_file", &jobj(vec![])), Err("tool not implemented: ingest_file".to_string()));
    assert_eq!(route_check("nope", &jobj(vec![])), Err("tool not implemented: nope".to_string()));
}
