//! The control flow of a dream cycle, as a step function: the phases run in
//! a fixed order; the four that ask the language model walk their work items
//! (clusters, episodes, procedures, pairs) one at a time and stop when their
//! allowance, the reserve kept for a second pass, or the cycle's cap runs
//! out. Without a model key the calling stages are skipped. The caller
//! performs each action (runs a phase, fetches the next item, makes the
//! call, records a skip) and reports what happened as the next event.
use vstd::prelude::*;
use crate::engines::dream::{
    CLUSTER_MIN_SIZE, LLM_BUDGET_PATTERN, LLM_BUDGET_REM, LLM_BUDGET_SCHEMA, LLM_BUDGET_VARIATION,
    MAX_LLM_CALLS, REM_PAIR_CHECKS, REM_SAMPLE_SIZE, SKILL_CLUSTER_MIN_SIZE,
};

verus! {

/// The stages of a cycle, in the order they run.
#[derive(Debug, Clone, Copy, PartialEq, Eq, Structural)]
pub enum CycleStage {
    SwsReplay,
    PatternExtraction,
    SchemaFormation,
    Variation,
    EmotionalReprocessing,
    SkillCompetition,
    Pruning,
    RemRecombination,
    Finished,
}

/// Where a cycle stands and what it has spent.
#[derive(Debug, Clone, Copy, PartialEq, Eq, Structural)]
pub struct DreamState {
    pub stage: CycleStage,
    /// The pass of a two-pass stage (0 or 1).
    pub pass: u8,
    /// Calls made by the whole cycle.
    pub calls_used: usize,
    /// The cycle's cap on calls.
    pub overall: usize,
    /// The current stage's allowance.
    pub phase_budget: usize,
    /// Calls the current stage may still make.
    pub remaining: usize,
    /// Calls the current stage has made.
    pub phase_calls: usize,
    /// Items offered in the current pass.
    pub offered: usize,
    /// Whether a model key is configured.
    pub has_key: bool,
}

/// What the caller reports.
#[derive(Debug, Clone, Copy, PartialEq, Eq, Structural)]
pub enum DreamEvent {
    /// A stage that makes no calls has run.
    PhaseDone,
    /// The next work item of the current pass, and whether it qualifies
    /// (a cluster large enough, an episode with memories, a pair not yet
    /// linked).
    Item { eligible: bool },
    /// The call for the current item was answered.
    Replied,
    /// The call for the current item failed; it is not charged.
    CallFailed,
    /// The current pass has no more items.
    ItemsExhausted,
}

/// What the caller is to do next.
#[derive(Debug, Clone, Copy, PartialEq, Eq, Structural)]
pub enum DreamAction {
    /// Run a stage that makes no calls, then report `PhaseDone`.
    RunPhase(CycleStage),
    /// Take the next work item of the current pass (or report
    /// `ItemsExhausted`).
    NextItem,
    /// Ask the language model about the current item.
    Call,
    /// Skip a calling stage for want of a model key: record the note
    /// `NO_KEY_NOTE`, then report `PhaseDone`.
    SkipPhase(CycleStage),
    /// The cycle is over.
    Finished,
}

/// The note of a calling stage skipped for want of a model key.
pub const NO_KEY_NOTE: &'static str = "skipped: no ANTHROPIC_API_KEY";

/// The most items a pass of stage `s` is offered: REM recombination checks
/// at most `REM_PAIR_CHECKS` pairs; the others take all they are given.
pub open spec fn item_limit(s: CycleStage) -> Option<usize> {
    if s == CycleStage::RemRecombination {
        Some(REM_PAIR_CHECKS)
    } else {
        None
    }
}

/// The call cap of a stage that asks the language model.
pub open spec fn stage_cap(s: CycleStage) -> Option<usize> {
    match s {
        CycleStage::PatternExtraction => Some(LLM_BUDGET_PATTERN),
        CycleStage::SchemaFormation => Some(LLM_BUDGET_SCHEMA),
        CycleStage::Variation => Some(LLM_BUDGET_VARIATION),
        CycleStage::RemRecombination => Some(LLM_BUDGET_REM),
        _ => None,
    }
}

/// Stages with two passes: schema formation (episodes, then skills) and
/// variation (refinement, then merges).
pub open spec fn two_pass(s: CycleStage) -> bool {
    s == CycleStage::SchemaFormation || s == CycleStage::Variation
}

/// The stage after `s`.
pub open spec fn next_stage(s: CycleStage) -> CycleStage {
    match s {
        CycleStage::SwsReplay => CycleStage::PatternExtraction,
        CycleStage::PatternExtraction => CycleStage::SchemaFormation,
        CycleStage::SchemaFormation => CycleStage::Variation,
        CycleStage::Variation => CycleStage::EmotionalReprocessing,
        CycleStage::EmotionalReprocessing => CycleStage::SkillCompetition,
        CycleStage::SkillCompetition => CycleStage::Pruning,
        CycleStage::Pruning => CycleStage::RemRecombination,
        _ => CycleStage::Finished,
    }
}

/// The calls the first pass of a two-pass stage leaves for the second:
/// half the allowance, at least one; nothing otherwise.
pub open spec fn reserve_spec(s: DreamState) -> nat {
    if two_pass(s.stage) && s.pass == 0 {
        if s.phase_budget / 2 >= 1 {
            (s.phase_budget / 2) as nat
        } else {
            1
        }
    } else {
        0
    }
}

/// Entering stage `s`: a calling stage gets the smaller of its cap and the
/// cycle's, and asks for its first item; another runs; after the last, the
/// cycle is over.
pub open spec fn enter_spec(st: DreamState, s: CycleStage) -> (DreamState, DreamAction) {
    match stage_cap(s) {
        Some(c) => if st.has_key {
            let b = if c < st.overall {
                c
            } else {
                st.overall
            };
            (
                DreamState {
                    stage: s,
                    pass: 0,
                    phase_budget: b,
                    remaining: b,
                    phase_calls: 0,
                    offered: 0,
                    ..st
                },
                DreamAction::NextItem,
            )
        } else {
            (
                DreamState {
                    stage: s,
                    pass: 0,
                    phase_budget: 0,
                    remaining: 0,
                    phase_calls: 0,
                    offered: 0,
                    ..st
                },
                DreamAction::SkipPhase(s),
            )
        },
        None => (
            DreamState {
                stage: s,
                pass: 0,
                phase_budget: 0,
                remaining: 0,
                phase_calls: 0,
                offered: 0,
                ..st
            },
            if s == CycleStage::Finished {
                DreamAction::Finished
            } else {
                DreamAction::RunPhase(s)
            },
        ),
    }
}

/// The end of a pass: the second pass of a two-pass stage begins, or the
/// next stage.
pub open spec fn end_pass_spec(st: DreamState) -> (DreamState, DreamAction) {
    if two_pass(st.stage) && st.pass == 0 {
        (DreamState { pass: 1, offered: 0, ..st }, DreamAction::NextItem)
    } else {
        enter_spec(st, next_stage(st.stage))
    }
}

/// What the state asks for when an event does not fit it: the same again.
pub open spec fn expected_spec(st: DreamState) -> DreamAction {
    if st.stage == CycleStage::Finished {
        DreamAction::Finished
    } else if stage_cap(st.stage) is Some && st.has_key {
        DreamAction::NextItem
    } else if stage_cap(st.stage) is Some {
        DreamAction::SkipPhase(st.stage)
    } else {
        DreamAction::RunPhase(st.stage)
    }
}

/// Whether the current pass may make another call: more than the reserve
/// left in the stage, and the cycle under its cap.
pub open spec fn may_call_spec(st: DreamState) -> bool {
    st.remaining > reserve_spec(st) && st.calls_used < st.overall
}

/// One more item offered, counted where the stage limits its items.
pub open spec fn bump_offered(st: DreamState) -> DreamState {
    if item_limit(st.stage) is Some {
        DreamState { offered: (st.offered + 1) as usize, ..st }
    } else {
        st
    }
}

/// One step of a cycle.
pub open spec fn dream_step_spec(st: DreamState, ev: DreamEvent) -> (DreamState, DreamAction) {
    let calling = stage_cap(st.stage) is Some && st.has_key;
    match ev {
        DreamEvent::PhaseDone => if !calling && st.stage != CycleStage::Finished {
            enter_spec(st, next_stage(st.stage))
        } else {
            (st, expected_spec(st))
        },
        DreamEvent::Item { eligible } => if !calling {
            (st, expected_spec(st))
        } else if item_limit(st.stage) matches Some(m) && st.offered >= m {
            end_pass_spec(st)
        } else if !may_call_spec(st) {
            end_pass_spec(st)
        } else if !eligible {
            (bump_offered(st), DreamAction::NextItem)
        } else {
            (bump_offered(st), DreamAction::Call)
        },
        DreamEvent::Replied => if calling && st.calls_used < st.overall && st.remaining > 0 && st.phase_calls
            < usize::MAX {
            (
                DreamState {
                    calls_used: (st.calls_used + 1) as usize,
                    remaining: (st.remaining - 1) as usize,
                    phase_calls: (st.phase_calls + 1) as usize,
                    ..st
                },
                DreamAction::NextItem,
            )
        } else {
            (st, expected_spec(st))
        },
        DreamEvent::CallFailed => (st, expected_spec(st)),
        DreamEvent::ItemsExhausted => if calling {
            end_pass_spec(st)
        } else {
            (st, expected_spec(st))
        },
    }
}

/// A state whose counts are consistent: the cycle's calls within its cap,
/// the cap within `MAX_LLM_CALLS`, and the stage's calls and remainder
/// adding up to its allowance, which is within the cap.
pub open spec fn dream_wf(st: DreamState) -> bool {
    &&& st.calls_used <= st.overall <= MAX_LLM_CALLS
    &&& st.phase_budget <= st.overall
    &&& st.remaining + st.phase_calls == st.phase_budget
    &&& st.pass <= 1
}

/// The start of a cycle asked to make at most `max_llm_calls` calls: its
/// cap is that, but never more than `MAX_LLM_CALLS`; slow-wave replay runs
/// first.
pub open spec fn dream_start_spec(max_llm_calls: usize, has_key: bool) -> (DreamState, DreamAction) {
    (
        DreamState {
            stage: CycleStage::SwsReplay,
            pass: 0,
            calls_used: 0,
            overall: if max_llm_calls < MAX_LLM_CALLS {
                max_llm_calls
            } else {
                MAX_LLM_CALLS
            },
            phase_budget: 0,
            remaining: 0,
            phase_calls: 0,
            offered: 0,
            has_key,
        },
        DreamAction::RunPhase(CycleStage::SwsReplay),
    )
}

/// Start a cycle; `has_key` says whether a model key is configured.
pub fn dream_start(max_llm_calls: usize, has_key: bool) -> (r: (DreamState, DreamAction))
    ensures
        r == dream_start_spec(max_llm_calls, has_key),
        dream_wf(r.0),
{
    let overall = if max_llm_calls < MAX_LLM_CALLS {
        max_llm_calls
    } else {
        MAX_LLM_CALLS
    };
    (
        DreamState {
            stage: CycleStage::SwsReplay,
            pass: 0,
            calls_used: 0,
            overall,
            phase_budget: 0,
            remaining: 0,
            phase_calls: 0,
            offered: 0,
            has_key,
        },
        DreamAction::RunPhase(CycleStage::SwsReplay),
    )
}

fn item_limit_of(s: CycleStage) -> (r: Option<usize>)
    ensures
        r == item_limit(s),
{
    match s {
        CycleStage::RemRecombination => Some(REM_PAIR_CHECKS),
        _ => None,
    }
}

fn stage_cap_of(s: CycleStage) -> (r: Option<usize>)
    ensures
        r == stage_cap(s),
{
    match s {
        CycleStage::PatternExtraction => Some(LLM_BUDGET_PATTERN),
        CycleStage::SchemaFormation => Some(LLM_BUDGET_SCHEMA),
        CycleStage::Variation => Some(LLM_BUDGET_VARIATION),
        CycleStage::RemRecombination => Some(LLM_BUDGET_REM),
        _ => None,
    }
}

fn next_stage_of(s: CycleStage) -> (r: CycleStage)
    ensures
        r == next_stage(s),
{
    match s {
        CycleStage::SwsReplay => CycleStage::PatternExtraction,
        CycleStage::PatternExtraction => CycleStage::SchemaFormation,
        CycleStage::SchemaFormation => CycleStage::Variation,
        CycleStage::Variation => CycleStage::EmotionalReprocessing,
        CycleStage::EmotionalReprocessing => CycleStage::SkillCompetition,
        CycleStage::SkillCompetition => CycleStage::Pruning,
        CycleStage::Pruning => CycleStage::RemRecombination,
        _ => CycleStage::Finished,
    }
}

fn is_two_pass(s: CycleStage) -> (r: bool)
    ensures
        r == two_pass(s),
{
    match s {
        CycleStage::SchemaFormation | CycleStage::Variation => true,
        _ => false,
    }
}

fn enter(st: DreamState, s: CycleStage) -> (r: (DreamState, DreamAction))
    ensures
        r == enter_spec(st, s),
{
    match stage_cap_of(s) {
        Some(c) => if st.has_key {
            let b = if c < st.overall {
                c
            } else {
                st.overall
            };
            (
                DreamState {
                    stage: s,
                    pass: 0,
                    phase_budget: b,
                    remaining: b,
                    phase_calls: 0,
                    offered: 0,
                    ..st
                },
                DreamAction::NextItem,
            )
        } else {
            (
                DreamState {
                    stage: s,
                    pass: 0,
                    phase_budget: 0,
                    remaining: 0,
                    phase_calls: 0,
                    offered: 0,
                    ..st
                },
                DreamAction::SkipPhase(s),
            )
        },
        None => (
            DreamState {
                stage: s,
                pass: 0,
                phase_budget: 0,
                remaining: 0,
                phase_calls: 0,
                offered: 0,
                ..st
            },
            match s {
                CycleStage::Finished => DreamAction::Finished,
                _ => DreamAction::RunPhase(s),
            },
        ),
    }
}

fn end_pass(st: DreamState) -> (r: (DreamState, DreamAction))
    ensures
        r == end_pass_spec(st),
{
    if is_two_pass(st.stage) && st.pass == 0 {
        (DreamState { pass: 1, offered: 0, ..st }, DreamAction::NextItem)
    } else {
        enter(st, next_stage_of(st.stage))
    }
}

fn expected(st: DreamState) -> (r: DreamAction)
    ensures
        r == expected_spec(st),
{
    match st.stage {
        CycleStage::Finished => DreamAction::Finished,
        _ => match stage_cap_of(st.stage) {
            Some(_) => if st.has_key {
                DreamAction::NextItem
            } else {
                DreamAction::SkipPhase(st.stage)
            },
            None => DreamAction::RunPhase(st.stage),
        },
    }
}

/// The reserve of the current pass.
pub fn pass_reserve(st: &DreamState) -> (r: usize)
    ensures
        r == reserve_spec(*st),
{
    if is_two_pass(st.stage) && st.pass == 0 {
        let half = st.phase_budget / 2;
        if half >= 1 {
            half
        } else {
            1
        }
    } else {
        0
    }
}

/// Advance a cycle by one reported event.
pub fn dream_step(st: &DreamState, ev: DreamEvent) -> (r: (DreamState, DreamAction))
    ensures
        r == dream_step_spec(*st, ev),
{
    let s = *st;
    let calling = match stage_cap_of(s.stage) {
        Some(_) => s.has_key,
        None => false,
    };
    match ev {
        DreamEvent::PhaseDone => {
            let finished = match s.stage {
                CycleStage::Finished => true,
                _ => false,
            };
            if !calling && !finished {
                enter(s, next_stage_of(s.stage))
            } else {
                (s, expected(s))
            }
        },
        DreamEvent::Item { eligible } => {
            let limit = item_limit_of(s.stage);
            let at_limit = match limit {
                Some(m) => s.offered >= m,
                None => false,
            };
            if !calling {
                (s, expected(s))
            } else if at_limit {
                end_pass(s)
            } else if !(s.remaining > pass_reserve(&s) && s.calls_used < s.overall) {
                end_pass(s)
            } else {
                let next = match limit {
                    Some(_) => DreamState { offered: s.offered + 1, ..s },
                    None => s,
                };
                if !eligible {
                    (next, DreamAction::NextItem)
                } else {
                    (next, DreamAction::Call)
                }
            }
        },
        DreamEvent::Replied => {
            if calling && s.calls_used < s.overall && s.remaining > 0 && s.phase_calls < usize::MAX {
                (
                    DreamState {
                        calls_used: s.calls_used + 1,
                        remaining: s.remaining - 1,
                        phase_calls: s.phase_calls + 1,
                        ..s
                    },
                    DreamAction::NextItem,
                )
            } else {
                (s, expected(s))
            }
        },
        DreamEvent::CallFailed => (s, expected(s)),
        DreamEvent::ItemsExhausted => {
            if calling {
                end_pass(s)
            } else {
                (s, expected(s))
            }
        },
    }
}


/// Whether a cluster of `size` items is worth a call: at least
/// `CLUSTER_MIN_SIZE` memories for pattern extraction, at least
/// `SKILL_CLUSTER_MIN_SIZE` procedures for skill distillation.
pub fn cluster_qualifies(size: usize, skills: bool) -> (r: bool)
    ensures
        r == (size >= if skills {
            SKILL_CLUSTER_MIN_SIZE
        } else {
            CLUSTER_MIN_SIZE
        }),
{
    if skills {
        size >= SKILL_CLUSTER_MIN_SIZE
    } else {
        size >= CLUSTER_MIN_SIZE
    }
}

/// Whether an episode is worth a schema call: it links at least two
/// memories, and some of them are visible.
pub fn episode_qualifies(memory_ids: usize, visible: usize) -> (r: bool)
    ensures
        r == (memory_ids >= 2 && visible > 0),
{
    memory_ids >= 2 && visible > 0
}

/// The note of REM recombination over too few memories.
pub const REM_TOO_FEW_NOTE: &'static str = "Not enough memories for REM recombination";

/// The note of REM recombination over too few memories the scope sees.
pub const REM_TOO_FEW_VISIBLE_NOTE: &'static str = "Not enough accessible memories for REM recombination";

/// How REM recombination starts over `total` memories: fewer than four
/// end it with `REM_TOO_FEW_NOTE`; otherwise it samples `REM_SAMPLE_SIZE` of
/// them (all, when there are fewer).
pub fn rem_sample(total: usize) -> (r: Result<usize, &'static str>)
    ensures
        total < 4 ==> r == Err::<usize, &str>(REM_TOO_FEW_NOTE),
        total >= 4 ==> r == Ok::<usize, &str>(if total < REM_SAMPLE_SIZE {
            total
        } else {
            REM_SAMPLE_SIZE
        }),
{
    if total < 4 {
        Err(REM_TOO_FEW_NOTE)
    } else if total < REM_SAMPLE_SIZE {
        Ok(total)
    } else {
        Ok(REM_SAMPLE_SIZE)
    }
}

/// Whether REM recombination can go on with the `visible` sampled memories
/// the scope sees: at least two, else it ends with
/// `REM_TOO_FEW_VISIBLE_NOTE`.
pub fn rem_pairs_possible(visible: usize) -> (r: Result<(), &'static str>)
    ensures
        visible < 2 ==> r == Err::<(), &str>(REM_TOO_FEW_VISIBLE_NOTE),
        visible >= 2 ==> r == Ok::<(), &str>(()),
{
    if visible < 2 {
        Err(REM_TOO_FEW_VISIBLE_NOTE)
    } else {
        Ok(())
    }
}

/// Every step keeps a cycle's counts consistent: in particular the cycle
/// never makes more calls than its cap, nor than `MAX_LLM_CALLS`, and the
/// calls made never go down.
pub proof fn law_dream_step_keeps_budget(st: DreamState, ev: DreamEvent)
    requires
        dream_wf(st),
    ensures
        dream_wf(dream_step_spec(st, ev).0),
        dream_step_spec(st, ev).0.calls_used >= st.calls_used,
        dream_step_spec(st, ev).0.overall == st.overall,
        dream_step_spec(st, ev).0.calls_used <= MAX_LLM_CALLS,
{
}

/// Without a model key the cycle never asks the model anything and makes
/// no call: each calling stage is skipped.
pub proof fn law_no_key_no_call(st: DreamState, ev: DreamEvent)
    requires
        !st.has_key,
    ensures
        dream_step_spec(st, ev).1 != DreamAction::Call,
        dream_step_spec(st, ev).0.calls_used == st.calls_used,
        !dream_step_spec(st, ev).0.has_key,
{
}

/// The stages that ask the model are skipped, noted, without a key.
pub proof fn law_no_key_skips_calling_stages(st: DreamState, s: CycleStage)
    requires
        !st.has_key,
        stage_cap(s) is Some,
    ensures
        enter_spec(st, s).1 == DreamAction::SkipPhase(s),
{
}

/// A call is only asked for when the stage has calls left beyond its
/// reserve and the cycle is under its cap.
pub proof fn law_calls_only_within_allowance(st: DreamState, ev: DreamEvent)
    requires
        dream_wf(st),
        dream_step_spec(st, ev).1 == DreamAction::Call,
    ensures
        stage_cap(st.stage) is Some,
        st.has_key,
        st.remaining > reserve_spec(st),
        st.calls_used < st.overall,
{
}

} // verus!
