//! Bookkeeping of H¹ for the agent loop.
//!
//! H¹ counts the independent closed loops around which the value 1-form has
//! non-trivial holonomy; each is an independent hacking channel.  The state
//! graph of an agent trajectory is a single closed loop through its states,
//! so H¹ has one generator exactly when the holonomy around that loop is
//! non-trivial (above tolerance) and none otherwise.  Fewer than three
//! states form no loop worth examining, and H¹ is then zero.

use vstd::prelude::*;
use crate::cochain::{
    is_loop_edge_list,
    is_loop_coboundary,
    loop_edges,
    loop_coboundary_matrix,
    circulation,
    lemma_circulation_vanishes,
};

verus! {

/// Fewest states for which the loop is examined at all.
pub const MIN_LOOP_STATES: usize = 3;

/// Dimension of H¹ of the single agent loop, given whether the holonomy
/// around it is non-trivial.
pub open spec fn loop_h1_dimension(loop_nontrivial: bool) -> nat {
    if loop_nontrivial {
        1
    } else {
        0
    }
}

/// The independent hacking channels that were found.
pub struct H1Channels {
    /// Dimension of H¹: the number of channels.
    pub dimension: usize,
    /// Whether the loop itself is a channel.
    pub loop_channel: bool,
    /// Whether reward hacking is detected: some channel exists.
    pub hacking_detected: bool,
}

/// The channels of the single agent loop: the loop is one channel exactly
/// when its holonomy is non-trivial.
pub fn select_h1_channels(loop_nontrivial: bool) -> (c: H1Channels)
    ensures
        c.loop_channel == loop_nontrivial,
        c.dimension == loop_h1_dimension(loop_nontrivial),
        c.hacking_detected == (c.dimension > 0),
        c.hacking_detected == loop_nontrivial,
{
    let dimension: usize = if loop_nontrivial { 1 } else { 0 };
    H1Channels { dimension, loop_channel: loop_nontrivial, hacking_detected: dimension > 0 }
}

/// Law: an exact value form — increments `V(next) − V(state)` of one vertex
/// function `V` — has zero holonomy around the loop, so for any
/// non-negative tolerance the loop is trivial, H¹ is zero and no hacking is
/// flagged.
pub proof fn lemma_exact_form_has_trivial_h1(n: nat, v: Seq<int>, tolerance: int)
    requires
        n >= MIN_LOOP_STATES,
        tolerance >= 0,
    ensures
        circulation(n, v, n) == 0,
        loop_h1_dimension(circulation(n, v, n) > tolerance || -circulation(n, v, n) > tolerance) == 0,
{
    lemma_circulation_vanishes(n, v);
}

/// The discrete structure H¹ is computed on, for a loop of enough states.
pub struct H1Plan {
    /// The loop's edges `k → (k + 1) mod n`.
    pub loop_edges: Vec<(usize, usize)>,
    /// The loop's coboundary matrix δ₀.
    pub coboundary: Vec<Vec<i8>>,
}

/// The structure H¹ is computed on for `num_states` states, or `None` when
/// there are fewer than three states and H¹ is trivially zero.
pub fn h1_plan(num_states: usize) -> (plan: Option<H1Plan>)
    ensures
        plan is None <==> num_states < MIN_LOOP_STATES,
        plan matches Some(p) ==> {
            &&& is_loop_edge_list(num_states as nat, p.loop_edges@)
            &&& is_loop_coboundary(num_states as nat, p.coboundary@)
        },
{
    if num_states < MIN_LOOP_STATES {
        None
    } else {
        Some(
            H1Plan {
                loop_edges: loop_edges(num_states),
                coboundary: loop_coboundary_matrix(num_states),
            },
        )
    }
}

} // verus!
