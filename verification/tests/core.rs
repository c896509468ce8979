use cerebro::config::{data_dir, export_dir, join, sqlite_db, Config};
use cerebro::types::{default_visibility, AgentId, MemoryId, Visibility, VisibilityScope};

#[test]
fn paths_are_joined() {
    assert_eq!(join("/data", "x.db"), "/data/x.db");
    assert_eq!(join("/data/", "x.db"), "/data/x.db");
    assert_eq!(data_dir(Some("/srv/c"), Some("/home/a")), "/srv/c");
    assert_eq!(data_dir(None, Some("/home/a")), "/home/a/.cerebro-cortex");
    assert_eq!(data_dir(None, None), "/tmp/.cerebro-cortex");
}

#[test]
fn config_paths_hang_off_the_data_dir() {
    assert!(sqlite_db("/d").starts_with("/d/"));
    assert!(export_dir("/d").starts_with("/d/"));
    let _ = Config::from_parts("/d", None, None);
}

#[test]
fn ids_are_uuid_v4_text() {
    let m = MemoryId::new();
    assert_eq!(m.0.len(), 36);
    assert_eq!(&m.0[14..15], "4");
    let a = AgentId::new();
    assert_ne!(a.0, MemoryId::new().0);
}

#[test]
fn visibility_scopes_guard_private_memories() {
    let forge = AgentId("FORGE".to_string());
    let other = AgentId("OTHER".to_string());
    let s = VisibilityScope::for_agent(forge.clone());
    assert!(s.can_access(Visibility::Private, Some(&forge)));
    assert!(!s.can_access(Visibility::Private, Some(&other)));
    assert!(s.can_access(Visibility::Shared, Some(&other)));
    assert!(s.can_access(Visibility::Thread, None));
    let fed = VisibilityScope::shared_only();
    assert!(fed.can_access(Visibility::Shared, Some(&other)));
    assert!(!fed.can_access(Visibility::Thread, None));
    assert!(!fed.can_access(Visibility::Private, Some(&forge)));
    let g = VisibilityScope::global();
    assert!(g.can_access(Visibility::Shared, None));
    // The unrestricted scope is the admin view: it sees private memories of any owner.
    assert!(g.can_access(Visibility::Private, Some(&forge)));
    assert!(g.can_access(Visibility::Private, None));
    assert!(g.can_access(Visibility::Thread, Some(&other)));
    assert_eq!(fed.sql_filter().0, "visibility='shared'");
    assert_eq!(g.sql_filter().0, "1=1");
    let (sql, params) = s.sql_filter();
    assert_eq!(sql, "(visibility='shared' OR (visibility='private' AND agent_id=?))");
    assert_eq!(params, vec!["FORGE".to_string()]);
}

#[test]
fn default_visibility_follows_the_storing_agent() {
    assert_eq!(default_visibility(&VisibilityScope::global()), Visibility::Shared);
    assert_eq!(default_visibility(&VisibilityScope::shared_only()), Visibility::Shared);
    assert_eq!(default_visibility(&VisibilityScope::for_agent(AgentId("a".to_string()))), Visibility::Private);
}

#[test]
fn default_ids_are_fresh() {
    let a = MemoryId::default();
    let b = MemoryId::default();
    assert_eq!(a.0.len(), 36);
    assert_ne!(a.0, b.0);
    assert_eq!(AgentId::default().0.len(), 36);
}
