use lau_reward_hacking_detector::cochain::{
    difference_matrix, in_range_edge_indices, incidence_matrix, loop_coboundary_matrix, loop_edges,
};

fn apply_row(row: &[i8], f: &[i64]) -> i64 {
    row.iter().zip(f.iter()).map(|(a, b)| (*a as i64) * b).sum()
}

#[test]
fn loop_edges_close_the_loop() {
    assert_eq!(loop_edges(4), vec![(0, 1), (1, 2), (2, 3), (3, 0)]);
}

#[test]
fn loop_edges_of_nine_step_loop_return_to_start() {
    let edges = loop_edges(9);
    assert_eq!(edges.len(), 9);
    assert_eq!(edges[8], (8, 0));
    for k in 0..9 {
        assert_eq!(edges[k].1, edges[(k + 1) % 9].0);
    }
}

#[test]
fn loop_edges_degenerate_sizes() {
    assert!(loop_edges(0).is_empty());
    assert_eq!(loop_edges(1), vec![(0, 0)]);
    assert_eq!(loop_edges(2), vec![(0, 1), (1, 0)]);
}

#[test]
fn incidence_rows_hold_minus_one_at_source_plus_one_at_target() {
    let m = incidence_matrix(3, &vec![(0, 1), (1, 2), (0, 2)]);
    assert_eq!(m, vec![vec![-1, 1, 0], vec![0, -1, 1], vec![-1, 0, 1]]);
}

#[test]
fn incidence_self_loop_row_is_zero() {
    let m = incidence_matrix(3, &vec![(1, 1)]);
    assert_eq!(m, vec![vec![0, 0, 0]]);
}

#[test]
fn difference_matrix_is_negated_incidence() {
    let edges = vec![(0, 1), (1, 2), (0, 2), (2, 2), (0, 7)];
    let d = difference_matrix(3, &edges);
    assert_eq!(
        d,
        vec![vec![1, -1, 0], vec![0, 1, -1], vec![1, 0, -1], vec![0, 0, 0], vec![1, 0, 0]]
    );
}

#[test]
fn difference_formula_on_concrete_function() {
    // δ(i, j) = f(i) - f(j) for f = [0, 1, 3]: edges (0,1), (1,2), (0,2) give -1, -2, -3
    let f = [0i64, 1, 3];
    let d = difference_matrix(3, &vec![(0, 1), (1, 2), (0, 2)]);
    let values: Vec<i64> = d.iter().map(|row| apply_row(row, &f)).collect();
    assert_eq!(values, vec![-1, -2, -3]);
}

#[test]
fn incidence_ignores_endpoints_outside_the_vertices() {
    let m = incidence_matrix(2, &vec![(0, 5), (7, 1), (4, 4)]);
    assert_eq!(m, vec![vec![-1, 0], vec![0, 1], vec![0, 0]]);
}

#[test]
fn incidence_with_no_edges_or_no_vertices() {
    assert!(incidence_matrix(3, &vec![]).is_empty());
    assert_eq!(incidence_matrix(0, &vec![(0, 1)]), vec![Vec::<i8>::new()]);
}

#[test]
fn coboundary_formula_on_concrete_function() {
    // (δ₀ f)(i, j) = f(j) - f(i) for f = [0, 1, 3]
    let f = [0i64, 1, 3];
    let edges = vec![(0, 1), (1, 2), (0, 2), (2, 0), (1, 1)];
    let m = incidence_matrix(3, &edges);
    for (row, (i, j)) in m.iter().zip(edges.iter()) {
        assert_eq!(apply_row(row, &f), f[*j] - f[*i]);
    }
}

#[test]
fn constants_are_in_the_kernel_of_coboundary() {
    let m = incidence_matrix(4, &vec![(0, 1), (3, 2), (1, 3), (2, 2)]);
    for row in &m {
        assert_eq!(apply_row(row, &[7, 7, 7, 7]), 0);
    }
}

#[test]
fn loop_coboundary_rows() {
    let m = loop_coboundary_matrix(3);
    assert_eq!(m, vec![vec![1, -1, 0], vec![0, 1, -1], vec![-1, 0, 1]]);
}

#[test]
fn loop_coboundary_of_one_state_is_zero() {
    assert_eq!(loop_coboundary_matrix(1), vec![vec![0]]);
}

#[test]
fn loop_coboundary_image_has_zero_circulation() {
    let f = [2i64, -5, 11, 4, 0];
    let m = loop_coboundary_matrix(5);
    let total: i64 = m.iter().map(|row| apply_row(row, &f)).sum();
    assert_eq!(total, 0);
    assert_eq!(apply_row(&m[4], &f), f[4] - f[0]);
}

#[test]
fn in_range_edges_are_kept_in_order() {
    let ks = in_range_edge_indices(3, &vec![(0, 1), (2, 5), (1, 2), (3, 0), (2, 0)]);
    assert_eq!(ks, vec![0, 2, 4]);
    assert!(in_range_edge_indices(0, &vec![(0, 0)]).is_empty());
}
