use lau_reward_hacking_detector::conservation::ChargeLedger;
use lau_reward_hacking_detector::fleet::AgentRegistry;
use lau_reward_hacking_detector::verdict::{classify, recommendation, report_flags, Verdict};

#[test]
fn verdict_needs_three_states() {
    assert_eq!(classify(0, true, true, true), Verdict::InsufficientData);
    assert_eq!(classify(2, true, true, true), Verdict::InsufficientData);
    assert_eq!(classify(3, true, true, true), Verdict::RewardHacking);
}

#[test]
fn verdict_warning_and_nominal() {
    assert_eq!(classify(9, true, true, false), Verdict::Warning);
    assert_eq!(classify(9, true, false, true), Verdict::Warning);
    assert_eq!(classify(9, false, true, true), Verdict::Nominal);
    assert_eq!(classify(9, false, false, false), Verdict::Nominal);
}

#[test]
fn recommendation_texts() {
    assert_eq!(recommendation(Verdict::InsufficientData), "Insufficient data");
    assert!(recommendation(Verdict::RewardHacking).starts_with("REWARD HACKING DETECTED"));
    assert!(recommendation(Verdict::Warning).starts_with("WARNING"));
    assert!(recommendation(Verdict::Nominal).starts_with("NOMINAL"));
}

#[test]
fn report_with_insufficient_data_is_all_clear() {
    let r = report_flags(1, true, 2, true, true, true);
    assert!(!r.reward_hacking_detected);
    assert!(!r.locally_improving);
    assert!(!r.globally_cycling);
    assert!(!r.conservation_violated);
    assert_eq!(r.h1_dimension, 0);
    assert_eq!(r.recommendation, "Insufficient data");
}

#[test]
fn report_passes_signs_through() {
    let r = report_flags(9, true, 1, true, true, false);
    assert!(r.reward_hacking_detected);
    assert_eq!(r.verdict, Verdict::RewardHacking);
    assert_eq!(r.h1_dimension, 1);
    let r = report_flags(9, false, 0, true, false, true);
    assert!(!r.reward_hacking_detected);
    assert!(r.locally_improving);
    assert!(!r.globally_cycling);
    assert!(r.conservation_violated);
}

#[test]
fn ledger_compares_from_second_record() {
    let mut l = ChargeLedger::new(1);
    assert!(!l.record(&vec![true]));
    assert!(!l.violated);
    assert_eq!(l.drift_steps(), None);
    assert!(l.record(&vec![true]));
    assert!(l.violated);
    assert_eq!(l.drift_steps(), Some(1));
    assert!(l.record(&vec![false]));
    assert!(!l.violated);
    assert_eq!(l.drift_steps(), Some(2));
}

#[test]
fn ledger_any_charge_violates() {
    let mut l = ChargeLedger::new(2);
    l.record(&vec![false, false]);
    l.record(&vec![false, true]);
    assert!(l.violated);
    assert_eq!(l.records, 2);
}

#[test]
fn registry_starts_empty() {
    let r = AgentRegistry::new();
    assert_eq!(r.len(), 0);
    assert_eq!(r.risk_divisor(), 1);
}

#[test]
fn registry_register_and_find() {
    let mut r = AgentRegistry::new();
    assert_eq!(r.register("agent-1".to_string()), 0);
    assert_eq!(r.register("agent-2".to_string()), 1);
    assert_eq!(r.len(), 2);
    assert_eq!(r.slot_of("agent-2"), Some(1));
    assert_eq!(r.id_at(0), "agent-1");
    assert_eq!(r.slot_of("nonexistent"), None);
    assert_eq!(r.risk_divisor(), 2);
}

#[test]
fn registry_register_again_keeps_slot() {
    let mut r = AgentRegistry::new();
    r.register("a1".to_string());
    r.register("a2".to_string());
    assert_eq!(r.register("a1".to_string()), 0);
    assert_eq!(r.len(), 2);
}

#[test]
fn registry_flagged_in_slot_order() {
    let mut r = AgentRegistry::new();
    r.register("a".to_string());
    r.register("b".to_string());
    r.register("c".to_string());
    assert_eq!(r.flagged(&vec![true, false, true]), vec!["a".to_string(), "c".to_string()]);
    assert!(r.flagged(&vec![false, false, false]).is_empty());
}

#[test]
fn registry_flagged_lists_each_agent_once() {
    let mut r = AgentRegistry::new();
    r.register("x".to_string());
    r.register("y".to_string());
    r.register("x".to_string());
    assert_eq!(r.len(), 2);
    assert_eq!(r.flagged(&vec![true, true]), vec!["x".to_string(), "y".to_string()]);
}
