use cerebro::engines::dream_cycle::{
    cluster_qualifies, dream_start, dream_step, episode_qualifies, pass_reserve, rem_pairs_possible, rem_sample, CycleStage,
    DreamAction, DreamEvent, DreamState, NO_KEY_NOTE, REM_TOO_FEW_NOTE, REM_TOO_FEW_VISIBLE_NOTE,
};

fn step(s: &mut DreamState, ev: DreamEvent) -> DreamAction {
    let (n, a) = dream_step(s, ev);
    *s = n;
    a
}

#[test]
fn cycle_runs_stages_in_order_and_respects_allowances() {
    let (mut s, a) = dream_start(100, true);
    assert_eq!(s.overall, 20);
    assert_eq!(a, DreamAction::RunPhase(CycleStage::SwsReplay));
    // SWS done: pattern extraction gets min(12, 20) calls.
    assert_eq!(step(&mut s, DreamEvent::PhaseDone), DreamAction::NextItem);
    assert_eq!(s.stage, CycleStage::PatternExtraction);
    assert_eq!((s.phase_budget, s.remaining), (12, 12));
    // A too-small cluster is skipped; an eligible one is asked about.
    assert_eq!(step(&mut s, DreamEvent::Item { eligible: false }), DreamAction::NextItem);
    assert_eq!(step(&mut s, DreamEvent::Item { eligible: true }), DreamAction::Call);
    assert_eq!(step(&mut s, DreamEvent::Replied), DreamAction::NextItem);
    assert_eq!((s.calls_used, s.remaining, s.phase_calls), (1, 11, 1));
    // A failed call is not charged.
    assert_eq!(step(&mut s, DreamEvent::Item { eligible: true }), DreamAction::Call);
    assert_eq!(step(&mut s, DreamEvent::CallFailed), DreamAction::NextItem);
    assert_eq!(s.calls_used, 1);
    // Out of clusters: schema formation, allowance 4, first pass keeps 2.
    assert_eq!(step(&mut s, DreamEvent::ItemsExhausted), DreamAction::NextItem);
    assert_eq!(s.stage, CycleStage::SchemaFormation);
    assert_eq!(pass_reserve(&s), 2);
    for _ in 0..2 {
        assert_eq!(step(&mut s, DreamEvent::Item { eligible: true }), DreamAction::Call);
        assert_eq!(step(&mut s, DreamEvent::Replied), DreamAction::NextItem);
    }
    // The episode pass stops at the reserve; the skill pass takes the rest.
    assert_eq!(step(&mut s, DreamEvent::Item { eligible: true }), DreamAction::NextItem);
    assert_eq!((s.stage, s.pass), (CycleStage::SchemaFormation, 1));
    assert_eq!(pass_reserve(&s), 0);
    for _ in 0..2 {
        assert_eq!(step(&mut s, DreamEvent::Item { eligible: true }), DreamAction::Call);
        assert_eq!(step(&mut s, DreamEvent::Replied), DreamAction::NextItem);
    }
    assert_eq!(step(&mut s, DreamEvent::Item { eligible: true }), DreamAction::NextItem);
    assert_eq!(s.stage, CycleStage::Variation);
    assert_eq!(s.calls_used, 5);
    // Variation: no candidates in either pass.
    assert_eq!(step(&mut s, DreamEvent::ItemsExhausted), DreamAction::NextItem);
    assert_eq!(step(&mut s, DreamEvent::ItemsExhausted), DreamAction::RunPhase(CycleStage::EmotionalReprocessing));
    assert_eq!(step(&mut s, DreamEvent::PhaseDone), DreamAction::RunPhase(CycleStage::SkillCompetition));
    assert_eq!(step(&mut s, DreamEvent::PhaseDone), DreamAction::RunPhase(CycleStage::Pruning));
    assert_eq!(step(&mut s, DreamEvent::PhaseDone), DreamAction::NextItem);
    assert_eq!(s.stage, CycleStage::RemRecombination);
    assert_eq!(step(&mut s, DreamEvent::ItemsExhausted), DreamAction::Finished);
    assert_eq!(step(&mut s, DreamEvent::PhaseDone), DreamAction::Finished);
}

#[test]
fn cycle_cap_stops_calls() {
    let (mut s, _) = dream_start(1, true);
    step(&mut s, DreamEvent::PhaseDone);
    assert_eq!(s.phase_budget, 1);
    assert_eq!(step(&mut s, DreamEvent::Item { eligible: true }), DreamAction::Call);
    assert_eq!(step(&mut s, DreamEvent::Replied), DreamAction::NextItem);
    // Cap reached: the pass ends at once, and every later calling pass too.
    assert_eq!(step(&mut s, DreamEvent::Item { eligible: true }), DreamAction::NextItem);
    assert_eq!(s.stage, CycleStage::SchemaFormation);
    assert_eq!(step(&mut s, DreamEvent::Item { eligible: true }), DreamAction::NextItem);
    assert_eq!(step(&mut s, DreamEvent::Item { eligible: true }), DreamAction::NextItem);
    assert_eq!(s.stage, CycleStage::Variation);
    // An event that does not fit is answered with the same request.
    assert_eq!(step(&mut s, DreamEvent::PhaseDone), DreamAction::NextItem);
    assert_eq!(step(&mut s, DreamEvent::Replied), DreamAction::NextItem);
    assert_eq!(s.calls_used, 1);
}

#[test]
fn without_a_key_the_calling_stages_are_skipped() {
    let (mut s, _) = dream_start(20, false);
    assert_eq!(step(&mut s, DreamEvent::PhaseDone), DreamAction::SkipPhase(CycleStage::PatternExtraction));
    assert_eq!(NO_KEY_NOTE, "skipped: no ANTHROPIC_API_KEY");
    // Nothing but the skip is accepted there.
    assert_eq!(step(&mut s, DreamEvent::Item { eligible: true }), DreamAction::SkipPhase(CycleStage::PatternExtraction));
    assert_eq!(step(&mut s, DreamEvent::Replied), DreamAction::SkipPhase(CycleStage::PatternExtraction));
    assert_eq!(step(&mut s, DreamEvent::PhaseDone), DreamAction::SkipPhase(CycleStage::SchemaFormation));
    assert_eq!(step(&mut s, DreamEvent::PhaseDone), DreamAction::SkipPhase(CycleStage::Variation));
    assert_eq!(step(&mut s, DreamEvent::PhaseDone), DreamAction::RunPhase(CycleStage::EmotionalReprocessing));
    assert_eq!(step(&mut s, DreamEvent::PhaseDone), DreamAction::RunPhase(CycleStage::SkillCompetition));
    assert_eq!(step(&mut s, DreamEvent::PhaseDone), DreamAction::RunPhase(CycleStage::Pruning));
    assert_eq!(step(&mut s, DreamEvent::PhaseDone), DreamAction::SkipPhase(CycleStage::RemRecombination));
    assert_eq!(step(&mut s, DreamEvent::PhaseDone), DreamAction::Finished);
    assert_eq!(s.calls_used, 0);
}

#[test]
fn rem_checks_at_most_ten_pairs() {
    let (mut s, _) = dream_start(20, true);
    // Walk to REM: pattern, both schema passes and both variation passes are empty.
    while s.stage != CycleStage::RemRecombination {
        match dream_step(&s, DreamEvent::ItemsExhausted) {
            (n, DreamAction::NextItem) => s = n,
            (n, _) => {
                s = n;
                let (n2, _) = dream_step(&s, DreamEvent::PhaseDone);
                s = n2;
            }
        }
    }
    assert_eq!(s.remaining, 4);
    // Ten same-type pairs skipped, then the pass ends though calls remain.
    for _ in 0..10 {
        assert_eq!(step(&mut s, DreamEvent::Item { eligible: false }), DreamAction::NextItem);
    }
    assert_eq!(step(&mut s, DreamEvent::Item { eligible: true }), DreamAction::Finished);
    assert_eq!(s.calls_used, 0);
}

#[test]
fn phase_entry_guards() {
    assert!(!cluster_qualifies(2, false));
    assert!(cluster_qualifies(3, false));
    assert!(cluster_qualifies(2, true));
    assert!(!cluster_qualifies(1, true));
    assert!(!episode_qualifies(1, 1));
    assert!(!episode_qualifies(3, 0));
    assert!(episode_qualifies(2, 1));
    assert_eq!(rem_sample(3), Err(REM_TOO_FEW_NOTE));
    assert_eq!(rem_sample(4), Ok(4));
    assert_eq!(rem_sample(500), Ok(20));
    assert_eq!(REM_TOO_FEW_NOTE, "Not enough memories for REM recombination");
    assert_eq!(rem_pairs_possible(1), Err(REM_TOO_FEW_VISIBLE_NOTE));
    assert_eq!(rem_pairs_possible(2), Ok(()));
}
