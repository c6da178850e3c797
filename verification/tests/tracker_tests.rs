use lau_reward_hacking_detector::divergence::{CycleFlags, VisitSignal};
use lau_reward_hacking_detector::streak::ImprovementStreak;

fn visit(revisited: bool, rising: bool) -> VisitSignal {
    VisitSignal { revisited, displacement_rising: rising }
}

#[test]
fn streak_starts_empty() {
    let s = ImprovementStreak::new();
    assert_eq!(s.total_steps(), 0);
    assert_eq!(s.consecutive_positive(), 0);
    assert_eq!(s.positive_steps(), 0);
}

#[test]
fn streak_two_improving_steps() {
    let mut s = ImprovementStreak::new();
    s.record_transition(true);
    s.record_transition(true);
    assert_eq!(s.consecutive_positive(), 2);
    assert_eq!(s.total_steps(), 2);
}

#[test]
fn streak_resets_on_non_improving_step() {
    let mut s = ImprovementStreak::new();
    s.record_transition(true);
    s.record_transition(true);
    s.record_transition(false);
    assert_eq!(s.consecutive_positive(), 0);
    assert_eq!(s.positive_steps(), 2);
    s.record_transition(true);
    assert_eq!(s.consecutive_positive(), 1);
    assert_eq!(s.total_steps(), 4);
}

#[test]
fn streak_mixed_steps_half_positive() {
    let mut s = ImprovementStreak::new();
    s.record_transition(true);
    s.record_transition(false);
    assert_eq!(s.positive_steps() as f64 / s.total_steps() as f64, 0.5);
}

#[test]
fn flags_start_clear() {
    let f = CycleFlags::new();
    assert!(!f.cycling_detected());
    assert!(!f.diverging());
    assert_eq!(f.visits(), 0);
}

#[test]
fn flags_cycling_is_sticky() {
    let mut f = CycleFlags::new();
    assert!(!f.record_visit(visit(false, false)));
    assert!(f.record_visit(visit(true, false)));
    assert!(f.cycling_detected());
    assert!(!f.record_visit(visit(false, false)));
    assert!(f.cycling_detected());
    assert_eq!(f.visits(), 3);
}

#[test]
fn flags_divergence_only_from_third_visit() {
    let mut f = CycleFlags::new();
    assert!(!f.trend_checked_next());
    f.record_visit(visit(false, true));
    f.record_visit(visit(false, true));
    assert!(!f.diverging());
    assert!(f.trend_checked_next());
    f.record_visit(visit(false, true));
    assert!(f.diverging());
    f.record_visit(visit(false, false));
    assert!(f.diverging());
}
