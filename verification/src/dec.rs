//! Discrete exterior calculus: which edge value each side of a face uses.
//!
//! A 1-cochain is a list of oriented edges `(i, j)` with a value each.  The
//! holonomy around a face `[v0, v1, …, v(m−1)]` adds, for every side
//! `v(k) → v(k+1 mod m)`, the value of that edge, or subtracts the value of
//! the reversed edge when only that one is present; a side with neither
//! contributes nothing.  When an edge is listed more than once, its last
//! listing is the one that counts.

use vstd::prelude::*;
use crate::cochain::{loop_next, lemma_loop_successor, circulation, lemma_circulation_vanishes};

verus! {

/// How one side of a face is read from the edge list.
#[derive(Clone, Copy, Debug, PartialEq, Eq)]
pub enum EdgeStep {
    /// The side is the edge at this index, taken as listed.
    Forward(usize),
    /// The side is the reverse of the edge at this index.
    Backward(usize),
    /// Neither orientation of the side is listed.
    Missing,
}

/// Edge `e` is listed somewhere in `edges`.
pub open spec fn is_listed(edges: Seq<(usize, usize)>, e: (usize, usize)) -> bool {
    exists|t: int| 0 <= t < edges.len() && edges[t] == e
}

/// `k` is the index of the last listing of `e` in `edges`.
pub open spec fn is_last_listing(edges: Seq<(usize, usize)>, e: (usize, usize), k: int) -> bool {
    &&& 0 <= k < edges.len()
    &&& edges[k] == e
    &&& forall|t: int| k < t < edges.len() ==> edges[t] != e
}

/// `s` is how the side `i → j` is read from `edges`: the last listing of
/// `(i, j)` if there is one, else the last listing of `(j, i)` reversed, else
/// nothing.
pub open spec fn reads_side(edges: Seq<(usize, usize)>, i: usize, j: usize, s: EdgeStep) -> bool {
    match s {
        EdgeStep::Forward(k) => is_last_listing(edges, (i, j), k as int),
        EdgeStep::Backward(k) => !is_listed(edges, (i, j)) && is_last_listing(edges, (j, i), k as int),
        EdgeStep::Missing => !is_listed(edges, (i, j)) && !is_listed(edges, (j, i)),
    }
}

/// The index of the last listing of edge `(i, j)`, if any.
pub fn find_last_listing(edges: &Vec<(usize, usize)>, i: usize, j: usize) -> (found: Option<usize>)
    ensures
        match found {
            Some(k) => is_last_listing(edges@, (i, j), k as int),
            None => !is_listed(edges@, (i, j)),
        },
{
    let mut k: usize = edges.len();
    while k > 0
        invariant
            k <= edges@.len(),
            forall|t: int| k <= t < edges@.len() ==> edges@[t] != (i, j),
        decreases k,
    {
        k = k - 1;
        let (a, b) = edges[k];
        if a == i && b == j {
            return Some(k);
        }
    }
    None
}

/// How the side `i → j` is read from the edge list (see `reads_side`).
pub fn read_side(edges: &Vec<(usize, usize)>, i: usize, j: usize) -> (s: EdgeStep)
    ensures
        reads_side(edges@, i, j, s),
{
    match find_last_listing(edges, i, j) {
        Some(k) => EdgeStep::Forward(k),
        None => match find_last_listing(edges, j, i) {
            Some(k) => EdgeStep::Backward(k),
            None => EdgeStep::Missing,
        },
    }
}

/// For every side `face[k] → face[(k + 1) mod m]` of the face, in order, how
/// it is read from the edge list.
pub fn face_edge_steps(edges: &Vec<(usize, usize)>, face: &Vec<usize>) -> (steps: Vec<EdgeStep>)
    ensures
        steps@.len() == face@.len(),
        forall|k: int|
            0 <= k < face@.len() ==> reads_side(
                edges@,
                face@[k],
                face@[loop_next(face@.len(), k)],
                #[trigger] steps@[k],
            ),
{
    let m = face.len();
    let mut steps: Vec<EdgeStep> = Vec::new();
    let mut k: usize = 0;
    while k < m
        invariant
            m == face@.len(),
            k <= m,
            steps@.len() == k,
            forall|t: int|
                0 <= t < k ==> reads_side(
                    edges@,
                    face@[t],
                    face@[loop_next(m as nat, t)],
                    #[trigger] steps@[t],
                ),
        decreases m - k,
    {
        let next: usize = if k + 1 == m { 0 } else { k + 1 };
        proof {
            lemma_loop_successor(k as int, m as int);
        }
        let s = read_side(edges, face[k], face[next]);
        steps.push(s);
        k = k + 1;
    }
    steps
}

/// The signed value a side contributes, given the value of every edge.
pub open spec fn step_value(s: EdgeStep, values: Seq<int>) -> int {
    match s {
        EdgeStep::Forward(k) => values[k as int],
        EdgeStep::Backward(k) => -values[k as int],
        EdgeStep::Missing => 0,
    }
}

/// The holonomy of the first `k` sides: `Σ_{t < k} step_value(steps[t])`.
pub open spec fn face_holonomy(steps: Seq<EdgeStep>, values: Seq<int>, k: nat) -> int
    decreases k,
{
    if k == 0 {
        0
    } else {
        face_holonomy(steps, values, (k - 1) as nat) + step_value(steps[k - 1], values)
    }
}

proof fn lemma_face_holonomy_is_circulation(
    edges: Seq<(usize, usize)>,
    face: Seq<usize>,
    steps: Seq<EdgeStep>,
    v: Seq<int>,
    values: Seq<int>,
    k: nat,
)
    requires
        k <= face.len(),
        steps.len() == face.len(),
        forall|t: int|
            0 <= t < face.len() ==> reads_side(
                edges,
                face[t],
                face[loop_next(face.len(), t)],
                #[trigger] steps[t],
            ),
        forall|t: int| 0 <= t < face.len() ==> !(#[trigger] steps[t] is Missing),
        values.len() == edges.len(),
        forall|t: int|
            0 <= t < edges.len() ==> #[trigger] values[t] == v[edges[t].1 as int] - v[edges[t].0 as int],
    ensures
        face_holonomy(steps, values, k) == circulation(
            face.len(),
            Seq::new(face.len(), |t: int| v[face[t] as int]),
            k,
        ),
    decreases k,
{
    if k > 0 {
        lemma_face_holonomy_is_circulation(edges, face, steps, v, values, (k - 1) as nat);
        let t = k - 1;
        lemma_loop_successor(t, face.len() as int);
        let s = steps[t];
        assert(reads_side(edges, face[t], face[loop_next(face.len(), t)], s));
        match s {
            EdgeStep::Forward(e) => {
                assert(values[e as int] == v[edges[e as int].1 as int] - v[edges[e as int].0 as int]);
            },
            EdgeStep::Backward(e) => {
                assert(values[e as int] == v[edges[e as int].1 as int] - v[edges[e as int].0 as int]);
            },
            EdgeStep::Missing => {},
        }
    }
}

/// Law (exact cochains have zero holonomy): if every edge value is the
/// difference `V(j) − V(i)` of one vertex function `V`, then the holonomy
/// around any face whose every side is listed in some orientation is zero.
pub proof fn lemma_exact_cochain_zero_holonomy(
    edges: Seq<(usize, usize)>,
    face: Seq<usize>,
    steps: Seq<EdgeStep>,
    v: Seq<int>,
    values: Seq<int>,
)
    requires
        face.len() >= 1,
        steps.len() == face.len(),
        forall|t: int|
            0 <= t < face.len() ==> reads_side(
                edges,
                face[t],
                face[loop_next(face.len(), t)],
                #[trigger] steps[t],
            ),
        forall|t: int| 0 <= t < face.len() ==> !(#[trigger] steps[t] is Missing),
        values.len() == edges.len(),
        forall|t: int|
            0 <= t < edges.len() ==> #[trigger] values[t] == v[edges[t].1 as int] - v[edges[t].0 as int],
    ensures
        face_holonomy(steps, values, face.len()) == 0,
{
    lemma_face_holonomy_is_circulation(edges, face, steps, v, values, face.len());
    lemma_circulation_vanishes(face.len(), Seq::new(face.len(), |t: int| v[face[t] as int]));
}

} // verus!
