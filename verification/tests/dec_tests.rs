use lau_reward_hacking_detector::dec::{face_edge_steps, find_last_listing, read_side, EdgeStep};

fn holonomy(values: &[i64], steps: &[EdgeStep]) -> i64 {
    steps
        .iter()
        .map(|s| match s {
            EdgeStep::Forward(k) => values[*k],
            EdgeStep::Backward(k) => -values[*k],
            EdgeStep::Missing => 0,
        })
        .sum()
}

#[test]
fn dec_face_reads_forward_edges() {
    let edges = vec![(0, 1), (1, 2), (2, 0)];
    let steps = face_edge_steps(&edges, &vec![0, 1, 2]);
    assert_eq!(steps, vec![EdgeStep::Forward(0), EdgeStep::Forward(1), EdgeStep::Forward(2)]);
    // values 1, 1, -3 give holonomy -1
    assert_eq!(holonomy(&[1, 1, -3], &steps), -1);
    // values 1, 1, -2 give holonomy 0
    assert_eq!(holonomy(&[1, 1, -2], &steps), 0);
}

#[test]
fn dec_face_reads_reversed_edge_with_opposite_sign() {
    let edges = vec![(1, 0), (1, 2), (2, 0)];
    let steps = face_edge_steps(&edges, &vec![0, 1, 2]);
    assert_eq!(steps, vec![EdgeStep::Backward(0), EdgeStep::Forward(1), EdgeStep::Forward(2)]);
    assert_eq!(holonomy(&[-1, 1, -2], &steps), 0);
}

#[test]
fn dec_forward_orientation_wins_over_reverse() {
    let edges = vec![(1, 0), (0, 1)];
    assert_eq!(read_side(&edges, 0, 1), EdgeStep::Forward(1));
    assert_eq!(read_side(&edges, 1, 0), EdgeStep::Forward(0));
}

#[test]
fn dec_last_listing_of_repeated_edge_counts() {
    let edges = vec![(0, 1), (1, 2), (0, 1)];
    assert_eq!(find_last_listing(&edges, 0, 1), Some(2));
    assert_eq!(find_last_listing(&edges, 2, 1), None);
    assert_eq!(read_side(&edges, 2, 1), EdgeStep::Backward(1));
}

#[test]
fn dec_missing_side_contributes_nothing() {
    let edges = vec![(0, 1)];
    let steps = face_edge_steps(&edges, &vec![0, 1, 2]);
    assert_eq!(steps, vec![EdgeStep::Forward(0), EdgeStep::Missing, EdgeStep::Missing]);
    assert_eq!(holonomy(&[5], &steps), 5);
}

#[test]
fn dec_empty_face_and_single_vertex_face() {
    assert!(face_edge_steps(&vec![(0, 1)], &vec![]).is_empty());
    assert_eq!(face_edge_steps(&vec![(3, 3)], &vec![3]), vec![EdgeStep::Forward(0)]);
}

#[test]
fn dec_exact_cochain_has_zero_holonomy() {
    // values are differences of V = [4, -2, 9, 1]
    let v = [4i64, -2, 9, 1];
    let edges = vec![(0, 1), (2, 1), (2, 3), (0, 3), (1, 3)];
    let values: Vec<i64> = edges.iter().map(|(i, j)| v[*j] - v[*i]).collect();
    let steps = face_edge_steps(&edges, &vec![0, 1, 2, 3]);
    assert!(steps.iter().all(|s| *s != EdgeStep::Missing));
    assert_eq!(holonomy(&values, &steps), 0);
}
