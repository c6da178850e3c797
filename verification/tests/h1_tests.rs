use lau_reward_hacking_detector::h1::{h1_plan, select_h1_channels};

#[test]
fn nontrivial_loop_is_one_channel() {
    let c = select_h1_channels(true);
    assert_eq!(c.dimension, 1);
    assert!(c.loop_channel);
    assert!(c.hacking_detected);
}

#[test]
fn trivial_loop_has_no_channel() {
    let c = select_h1_channels(false);
    assert_eq!(c.dimension, 0);
    assert!(!c.loop_channel);
    assert!(!c.hacking_detected);
}

#[test]
fn h1_plan_needs_three_states() {
    assert!(h1_plan(0).is_none());
    assert!(h1_plan(2).is_none());
    let p = h1_plan(3).unwrap();
    assert_eq!(p.loop_edges, vec![(0, 1), (1, 2), (2, 0)]);
    assert_eq!(p.coboundary, vec![vec![1, -1, 0], vec![0, 1, -1], vec![-1, 0, 1]]);
}

#[test]
fn h1_plan_for_nine_step_loop() {
    let p = h1_plan(9).unwrap();
    assert_eq!(p.loop_edges.len(), 9);
    assert_eq!(p.loop_edges[8], (8, 0));
    assert_eq!(p.coboundary.len(), 9);
}

#[test]
fn monotone_trajectory_closed_into_loop_has_trivial_h1() {
    // rewards 0..9 along the loop: the increments around the closed loop sum to zero
    let rewards: Vec<i64> = (0..9).collect();
    let p = h1_plan(9).unwrap();
    let holonomy: i64 = p.loop_edges.iter().map(|(i, j)| rewards[*j] - rewards[*i]).sum();
    assert_eq!(holonomy, 0);
    let c = select_h1_channels(holonomy.abs() > 0);
    assert_eq!(c.dimension, 0);
    assert!(!c.hacking_detected);
}
