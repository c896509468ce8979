//! Identifiers, the memory enums, and the visibility scopes every query
//! carries.
use vstd::prelude::*;

verus! {

/// Identifier of a stored memory.
pub struct MemoryId(pub String);

/// Identifier of a registered agent.
pub struct AgentId(pub String);

impl View for MemoryId {
    type V = Seq<char>;

    open spec fn view(&self) -> Seq<char> {
        self.0@
    }
}

impl View for AgentId {
    type V = Seq<char>;

    open spec fn view(&self) -> Seq<char> {
        self.0@
    }
}

impl Clone for MemoryId {
    fn clone(&self) -> (r: Self)
        ensures
            r@ == self@,
    {
        MemoryId(self.0.clone())
    }
}

impl Clone for AgentId {
    fn clone(&self) -> (r: Self)
        ensures
            r@ == self@,
    {
        AgentId(self.0.clone())
    }
}

/// The textual form of a version-4 UUID as `Uuid::to_string` writes it:
/// 36 characters, lowercase hex digits in five groups 8-4-4-4-12 joined by
/// `-`, the version digit `4` opening the third group and the variant digit
/// (`8`, `9`, `a` or `b`) opening the fourth.
pub open spec fn is_uuid_v4_text(s: Seq<char>) -> bool {
    &&& s.len() == 36
    &&& forall|i: int|
        0 <= i < 36 ==> if i == 8 || i == 13 || i == 18 || i == 23 {
            s[i] == '-'
        } else {
            ('0' <= s[i] && s[i] <= '9') || ('a' <= s[i] && s[i] <= 'f')
        }
    &&& s[14] == '4'
    &&& (s[19] == '8' || s[19] == '9' || s[19] == 'a' || s[19] == 'b')
}

/// A fresh random identifier: `uuid::Uuid::new_v4().to_string()`. The value
/// is random; what holds of every outcome is its textual shape.
#[verifier::external_body]
fn fresh_uuid_text() -> (s: String)
    ensures
        is_uuid_v4_text(s@),
{
    uuid::Uuid::new_v4().to_string()
}

impl Default for MemoryId {
    /// A fresh random memory id.
    fn default() -> (r: Self)
        ensures
            is_uuid_v4_text(r@),
    {
        MemoryId::new()
    }
}

impl Default for AgentId {
    /// A fresh random agent id.
    fn default() -> (r: Self)
        ensures
            is_uuid_v4_text(r@),
    {
        AgentId::new()
    }
}

impl MemoryId {
    /// A fresh random memory id.
    pub fn new() -> (r: Self)
        ensures
            is_uuid_v4_text(r@),
    {
        MemoryId(fresh_uuid_text())
    }
}

impl AgentId {
    /// A fresh random agent id.
    pub fn new() -> (r: Self)
        ensures
            is_uuid_v4_text(r@),
    {
        AgentId(fresh_uuid_text())
    }
}

/// The six memory systems.
#[derive(Clone, Copy, Debug, PartialEq, Eq, Structural)]
pub enum MemoryType {
    Episodic,
    Semantic,
    Procedural,
    Affective,
    Prospective,
    Schematic,
}

/// Typed associative links between memories.
#[derive(Clone, Copy, Debug, PartialEq, Eq, Structural)]
pub enum LinkType {
    Temporal,
    Causal,
    Semantic,
    Affective,
    Contextual,
    Contradicts,
    Supports,
    DerivedFrom,
    PartOf,
}

/// Storage layers a memory moves through.
#[derive(Clone, Copy, Debug, PartialEq, Eq, Structural)]
pub enum MemoryLayer {
    Sensory,
    Working,
    LongTerm,
    Cortex,
}

/// Emotional valence of a memory.
#[derive(Clone, Copy, Debug, PartialEq, Eq, Structural)]
pub enum EmotionalValence {
    Positive,
    Negative,
    Neutral,
    Mixed,
}

/// Media type of ingested content.
#[derive(Clone, Copy, Debug, PartialEq, Eq, Structural)]
pub enum MediaType {
    Text,
    Image,
    Pdf,
    Audio,
    Video,
    Html,
    Csv,
    Unknown,
}

/// The consolidation phases of a dream cycle.
#[derive(Clone, Copy, Debug, PartialEq, Eq, Structural)]
pub enum DreamPhase {
    SwsReplay,
    PatternExtraction,
    SchemaFormation,
    EmotionalReprocessing,
    Pruning,
    RemRecombination,
}

/// Who a memory is visible to.
#[derive(Clone, Copy, Debug, PartialEq, Eq, Structural)]
pub enum Visibility {
    Private,
    Shared,
    Thread,
}

/// The scope a query runs under: an optional agent, or the federation scope
/// that sees shared memories only.
pub struct VisibilityScope {
    pub agent_id: Option<AgentId>,
    pub shared_only: bool,
}

/// The visibility a memory is stored with when none is asked for: private to
/// the agent that stores it, shared when no agent does.
pub fn default_visibility(scope: &VisibilityScope) -> (r: Visibility)
    ensures
        r == (if scope.agent_id is None {
            Visibility::Shared
        } else {
            Visibility::Private
        }),
{
    match &scope.agent_id {
        None => Visibility::Shared,
        Some(_) => Visibility::Private,
    }
}

/// The agent of a scope, as a plain value.
pub open spec fn opt_agent(a: Option<AgentId>) -> Option<Seq<char>> {
    match a {
        Some(x) => Some(x@),
        None => None,
    }
}

/// Whether a scope (given by its agent and its shared-only flag) may see a
/// memory of the given visibility owned by `node_agent`. The unrestricted
/// scope (no agent, not shared-only) is the admin view and sees everything;
/// an agent's scope sees a private memory only when it owns it.
pub open spec fn scope_can_access(
    scope_agent: Option<Seq<char>>,
    shared_only: bool,
    visibility: Visibility,
    node_agent: Option<Seq<char>>,
) -> bool {
    if shared_only {
        visibility == Visibility::Shared
    } else {
        match visibility {
            Visibility::Shared => true,
            Visibility::Private => scope_agent is None || scope_agent == node_agent,
            Visibility::Thread => true,
        }
    }
}

impl VisibilityScope {
    /// The unrestricted scope.
    pub fn global() -> (r: Self)
        ensures
            r.agent_id.is_none(),
            !r.shared_only,
    {
        VisibilityScope { agent_id: None, shared_only: false }
    }

    /// The scope of one agent.
    pub fn for_agent(id: AgentId) -> (r: Self)
        ensures
            opt_agent(r.agent_id) == Some(id@),
            !r.shared_only,
    {
        VisibilityScope { agent_id: Some(id), shared_only: false }
    }

    /// The federation scope: only shared memories are visible.
    pub fn shared_only() -> (r: Self)
        ensures
            r.agent_id.is_none(),
            r.shared_only,
    {
        VisibilityScope { agent_id: None, shared_only: true }
    }

    /// The SQL filter fragment of this scope and its bound parameters.
    pub fn sql_filter(&self) -> (r: (&'static str, Vec<String>))
        ensures
            self.shared_only ==> r.0@ == "visibility='shared'"@ && r.1@.len() == 0,
            !self.shared_only && self.agent_id.is_none() ==> r.0@ == "1=1"@ && r.1@.len() == 0,
            !self.shared_only && self.agent_id.is_some() ==> {
                &&& r.0@ == "(visibility='shared' OR (visibility='private' AND agent_id=?))"@
                &&& r.1@.len() == 1
                &&& r.1@[0]@ == opt_agent(self.agent_id)->0
            },
    {
        if self.shared_only {
            return ("visibility='shared'", Vec::new());
        }
        match &self.agent_id {
            None => ("1=1", Vec::new()),
            Some(id) => {
                let mut v: Vec<String> = Vec::new();
                v.push(id.0.clone());
                ("(visibility='shared' OR (visibility='private' AND agent_id=?))", v)
            },
        }
    }

    /// Whether this scope may see a memory of `visibility` owned by `node_agent_id`.
    pub fn can_access(&self, visibility: Visibility, node_agent_id: Option<&AgentId>) -> (r: bool)
        ensures
            r == scope_can_access(
                opt_agent(self.agent_id),
                self.shared_only,
                visibility,
                match node_agent_id {
                    Some(a) => Some(a@),
                    None => None,
                },
            ),
    {
        if self.shared_only {
            return match visibility {
                Visibility::Shared => true,
                _ => false,
            };
        }
        match visibility {
            Visibility::Shared => true,
            Visibility::Private => match (&self.agent_id, node_agent_id) {
                (None, _) => true,
                (Some(a), Some(b)) => crate::text::str_eq(a.0.as_str(), b.0.as_str()),
                (Some(_), None) => false,
            },
            Visibility::Thread => true,
        }
    }
}


/// The unrestricted scope is the admin view: it sees every memory.
pub proof fn law_global_sees_everything(visibility: Visibility, node_agent: Option<Seq<char>>)
    ensures
        scope_can_access(None, false, visibility, node_agent),
{
}

/// Whatever the federation scope sees, the unrestricted scope sees too.
pub proof fn law_shared_only_within_global(visibility: Visibility, node_agent: Option<Seq<char>>)
    ensures
        scope_can_access(None, true, visibility, node_agent) ==> scope_can_access(
            None,
            false,
            visibility,
            node_agent,
        ),
{
}

/// The federation scope sees shared memories and nothing else.
pub proof fn law_shared_only_sees_only_shared(
    visibility: Visibility,
    node_agent: Option<Seq<char>>,
)
    ensures
        scope_can_access(None, true, visibility, node_agent) <==> visibility == Visibility::Shared,
{
}

/// An agent never sees another agent's private memory, and always sees its
/// own.
pub proof fn law_private_memories_stay_with_their_owner(agent: Seq<char>, owner: Seq<char>)
    ensures
        scope_can_access(Some(agent), false, Visibility::Private, Some(owner)) <==> agent == owner,
{
}

/// Shared and thread memories are visible to every scope that is not the
/// federation scope.
pub proof fn law_shared_and_thread_visible_to_agents(
    agent: Option<Seq<char>>,
    node_agent: Option<Seq<char>>,
)
    ensures
        scope_can_access(agent, false, Visibility::Shared, node_agent),
        scope_can_access(agent, false, Visibility::Thread, node_agent),
{
}

} // verus!
