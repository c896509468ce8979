use cerebro::config::MAX_STORED_TIMESTAMPS;
use cerebro::models::{AccessHistory, Agent, Episode, ListFilter, DEFAULT_LIST_LIMIT};
use cerebro::types::AgentId;

#[test]
fn record_access_caps_timestamps_and_keeps_most_recent() {
    let mut h = AccessHistory::new(0);
    // starts with a single creation timestamp
    assert_eq!(h.access_times.len(), 1);
    // push well past the cap with strictly-increasing timestamps
    let base: i64 = 1_700_000_000;
    let total = MAX_STORED_TIMESTAMPS + 25;
    for i in 0..total {
        h.record_access(base + i as i64);
    }
    // access_count counts every recorded access (initial seed not counted)
    assert_eq!(h.access_count as usize, total);
    // the vec never exceeds the cap
    assert_eq!(h.access_times.len(), MAX_STORED_TIMESTAMPS);
    // and it retained the most-recent entries (last pushed is preserved)
    assert_eq!(*h.access_times.last().unwrap(), base + (total - 1) as i64);
    // the oldest retained entry is exactly cap-1 back from the last
    assert_eq!(h.access_times[0], base + (total - MAX_STORED_TIMESTAMPS) as i64);
}

#[test]
fn record_access_below_cap_appends() {
    let mut h = AccessHistory::new(5);
    h.record_access(7);
    assert_eq!(h.access_times, vec![5, 7]);
    assert_eq!(h.access_count, 1);
}

#[test]
fn access_count_saturates() {
    let mut h = AccessHistory { access_count: u32::MAX, access_times: Vec::new() };
    h.record_access(1);
    assert_eq!(h.access_count, u32::MAX);
    assert_eq!(h.access_times, vec![1]);
}

fn is_uuid_text(s: &str) -> bool {
    let b = s.as_bytes();
    b.len() == 36
        && b.iter().enumerate().all(|(i, c)| {
            if [8, 13, 18, 23].contains(&i) { *c == b'-' } else { c.is_ascii_digit() || (b'a'..=b'f').contains(c) }
        })
        && b[14] == b'4'
}

#[test]
fn agent_new_has_fresh_id_and_no_extras() {
    let a = Agent::new("scout".to_string());
    let b = Agent::new("scout".to_string());
    assert!(is_uuid_text(&a.id.0));
    assert_ne!(a.id.0, b.id.0);
    assert_eq!(a.name, "scout");
    assert!(a.description.is_none());
    assert!(a.last_seen.is_none());
    assert_eq!(a.metadata, "null");
    assert!(a.registered_at > 1_600_000_000);
}

#[test]
fn episode_new_starts_empty() {
    let e = Episode::new(Some(AgentId("scout-7".to_string())));
    assert!(is_uuid_text(&e.id));
    assert_eq!(e.agent_id.as_ref().map(|a| a.0.as_str()), Some("scout-7"));
    assert!(e.title.is_none() && e.thread_id.is_none() && e.summary.is_none());
    assert!(e.ended_at.is_none());
    assert!(e.steps.is_empty() && e.memory_ids.is_empty());
    assert_eq!(e.metadata, "null");
    let f = Episode::new(None);
    assert!(f.agent_id.is_none());
    assert_ne!(e.id, f.id);
}

#[test]
fn list_filter_default_values() {
    let f = ListFilter::default();
    assert!(f.memory_type.is_none());
    assert_eq!(f.limit, DEFAULT_LIST_LIMIT);
    assert_eq!(f.limit, 50);
    assert_eq!(f.offset, 0);
    assert!(!f.include_deleted);
}
