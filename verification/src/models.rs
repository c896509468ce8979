//! Records kept beside the memories: what a memory records of its own use
//! (how often it was accessed, and the most recent access times that ACT-R
//! activation reads), registered agents, episodes, and listing filters.
//! Instants are whole seconds since the Unix epoch.
use vstd::prelude::*;
use crate::config::MAX_STORED_TIMESTAMPS;
use crate::types::{AgentId, MemoryId, MemoryType, is_uuid_v4_text};

verus! {

/// The last `cap` entries of `s` (all of `s` when it is shorter).
pub open spec fn keep_last(s: Seq<i64>, cap: nat) -> Seq<i64> {
    if s.len() > cap {
        s.subrange(s.len() - cap, s.len() as int)
    } else {
        s
    }
}

/// The access record of a memory; times are instants in seconds.
pub struct AccessHistory {
    pub access_count: u32,
    pub access_times: Vec<i64>,
}

impl AccessHistory {
    /// The record of a memory created at `created_at`: no access counted yet,
    /// the creation instant as the only time.
    pub fn new(created_at: i64) -> (r: Self)
        ensures
            r.access_count == 0,
            r.access_times@ == seq![created_at],
    {
        let mut t: Vec<i64> = Vec::new();
        t.push(created_at);
        AccessHistory { access_count: 0, access_times: t }
    }

    /// Record an access at `at`: the count goes up by one (saturating), and
    /// `at` is appended while only the `MAX_STORED_TIMESTAMPS` most recent
    /// times are kept.
    pub fn record_access(&mut self, at: i64)
        ensures
            final(self).access_count == (if old(self).access_count < u32::MAX {
                (old(self).access_count + 1) as u32
            } else {
                u32::MAX
            }),
            final(self).access_times@ == keep_last(
                old(self).access_times@.push(at),
                MAX_STORED_TIMESTAMPS as nat,
            ),
    {
        self.access_count = self.access_count.saturating_add(1);
        let mut times: Vec<i64> = Vec::new();
        std::mem::swap(&mut times, &mut self.access_times);
        times.push(at);
        let ghost all = times@;
        let cap = MAX_STORED_TIMESTAMPS;
        if times.len() > cap {
            let drop = times.len() - cap;
            let mut kept: Vec<i64> = Vec::new();
            let mut i = drop;
            while i < times.len()
                invariant
                    drop <= i <= times@.len(),
                    times@ == all,
                    kept@ == all.subrange(drop as int, i as int),
                decreases times@.len() - i,
            {
                kept.push(times[i]);
                i = i + 1;
                assert(kept@ =~= all.subrange(drop as int, i as int));
            }
            self.access_times = kept;
        } else {
            self.access_times = times;
        }
    }
}

/// An access history never holds more than `MAX_STORED_TIMESTAMPS` times
/// after an access, and the newest time is always the one just recorded.
pub proof fn law_access_history_capped(times: Seq<i64>, at: i64)
    ensures
        keep_last(times.push(at), MAX_STORED_TIMESTAMPS as nat).len() <= MAX_STORED_TIMESTAMPS,
        keep_last(times.push(at), MAX_STORED_TIMESTAMPS as nat).last() == at,
{
}

/// The current instant, in whole seconds since the Unix epoch:
/// `chrono::Utc::now().timestamp()`. It reads the clock, so nothing is
/// promised of the value.
#[verifier::external_body]
fn now_seconds() -> (t: i64) {
    chrono::Utc::now().timestamp()
}

/// The JSON text of empty metadata.
pub open spec fn null_metadata() -> Seq<char> {
    seq!['n', 'u', 'l', 'l']
}

fn null_metadata_text() -> (s: String)
    ensures
        s@ == null_metadata(),
{
    let s = String::from_str("null");
    proof {
        reveal_strlit("null");
    }
    assert(s@ =~= null_metadata());
    s
}

/// A registered agent. `metadata` holds JSON text.
pub struct Agent {
    pub id: AgentId,
    pub name: String,
    pub description: Option<String>,
    pub registered_at: i64,
    pub last_seen: Option<i64>,
    pub metadata: String,
}

impl Agent {
    /// A newly registered agent named `name`, with a fresh id, registered now.
    pub fn new(name: String) -> (r: Self)
        ensures
            is_uuid_v4_text(r.id@),
            r.name@ == name@,
            r.description is None,
            r.last_seen is None,
            r.metadata@ == null_metadata(),
    {
        Agent {
            id: AgentId::new(),
            name,
            description: None,
            registered_at: now_seconds(),
            last_seen: None,
            metadata: null_metadata_text(),
        }
    }
}

/// One step of an episode.
pub struct EpisodeStep {
    pub step_index: u32,
    pub description: String,
    pub memory_id: Option<MemoryId>,
    pub timestamp: i64,
}

/// An episode: an ordered run of steps and the memories it touched.
/// `metadata` holds JSON text.
pub struct Episode {
    pub id: String,
    pub title: Option<String>,
    pub agent_id: Option<AgentId>,
    pub thread_id: Option<String>,
    pub started_at: i64,
    pub ended_at: Option<i64>,
    pub summary: Option<String>,
    pub steps: Vec<EpisodeStep>,
    pub memory_ids: Vec<MemoryId>,
    pub metadata: String,
}

impl Episode {
    /// A new episode of `agent_id`, with a fresh id, started now, with no
    /// steps, memories, title, thread or summary yet.
    pub fn new(agent_id: Option<AgentId>) -> (r: Self)
        ensures
            is_uuid_v4_text(r.id@),
            r.agent_id == agent_id,
            r.title is None,
            r.thread_id is None,
            r.ended_at is None,
            r.summary is None,
            r.steps@.len() == 0,
            r.memory_ids@.len() == 0,
            r.metadata@ == null_metadata(),
    {
        Episode {
            id: MemoryId::new().0,
            title: None,
            agent_id,
            thread_id: None,
            started_at: now_seconds(),
            ended_at: None,
            summary: None,
            steps: Vec::new(),
            memory_ids: Vec::new(),
            metadata: null_metadata_text(),
        }
    }
}

/// Which memories a listing returns: of one type only when `memory_type`
/// is set, at most `limit` of them after skipping `offset`, and deleted
/// ones only when `include_deleted` holds.
pub struct ListFilter {
    pub memory_type: Option<MemoryType>,
    pub limit: usize,
    pub offset: usize,
    pub include_deleted: bool,
}

/// The number of memories a listing returns unless told otherwise.
pub const DEFAULT_LIST_LIMIT: usize = 50;

impl Default for ListFilter {
    /// Any type, the first `DEFAULT_LIST_LIMIT` memories, deleted ones left out.
    fn default() -> (r: Self)
        ensures
            r.memory_type is None,
            r.limit == DEFAULT_LIST_LIMIT,
            r.offset == 0,
            !r.include_deleted,
    {
        ListFilter { memory_type: None, limit: DEFAULT_LIST_LIMIT, offset: 0, include_deleted: false }
    }
}

} // verus!
