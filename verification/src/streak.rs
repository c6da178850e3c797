//! Step counters of the local-improvement tracker.
//!
//! Every recorded transition either improved the reward (its delta is
//! positive) or did not.  The tracker counts the transitions, the improving
//! ones, and the current run of consecutive improving transitions, which a
//! non-improving transition resets to zero.

use vstd::prelude::*;

verus! {

/// Number of improving transitions in `h`.
pub open spec fn count_improving(h: Seq<bool>) -> nat
    decreases h.len(),
{
    if h.len() == 0 {
        0
    } else {
        count_improving(h.drop_last()) + if h.last() { 1nat } else { 0nat }
    }
}

/// Length of the run of improving transitions that ends `h`.
pub open spec fn trailing_improving(h: Seq<bool>) -> nat
    decreases h.len(),
{
    if h.len() == 0 {
        0
    } else if h.last() {
        trailing_improving(h.drop_last()) + 1
    } else {
        0
    }
}

/// Counters of the local-improvement tracker, over the history of whether
/// each recorded transition improved the reward.
pub struct ImprovementStreak {
    total_steps: usize,
    consecutive_positive: usize,
    positive_steps: usize,
    history: Ghost<Seq<bool>>,
}

impl View for ImprovementStreak {
    type V = Seq<bool>;

    closed spec fn view(&self) -> Seq<bool> {
        self.history@
    }
}

impl Clone for ImprovementStreak {
    /// A copy with the same history and counters.
    fn clone(&self) -> (c: Self)
        ensures
            c@ == self@,
    {
        proof {
            use_type_invariant(self);
        }
        ImprovementStreak {
            total_steps: self.total_steps,
            consecutive_positive: self.consecutive_positive,
            positive_steps: self.positive_steps,
            history: Ghost(self.history@),
        }
    }
}

impl ImprovementStreak {
    /// The counters agree with the history.
    #[verifier::type_invariant]
    spec fn counters_match(&self) -> bool {
        &&& self.total_steps == self.history@.len()
        &&& self.consecutive_positive == trailing_improving(self.history@)
        &&& self.positive_steps == count_improving(self.history@)
    }

    /// Counters over an empty history.
    pub fn new() -> (s: Self)
        ensures
            s@ == Seq::<bool>::empty(),
    {
        ImprovementStreak {
            total_steps: 0,
            consecutive_positive: 0,
            positive_steps: 0,
            history: Ghost(Seq::empty()),
        }
    }

    /// Transitions recorded.
    pub fn total_steps(&self) -> (n: usize)
        ensures
            n == self@.len(),
    {
        proof {
            use_type_invariant(self);
        }
        self.total_steps
    }

    /// Improving transitions in a row at the end of the history.
    pub fn consecutive_positive(&self) -> (n: usize)
        ensures
            n == trailing_improving(self@),
    {
        proof {
            use_type_invariant(self);
        }
        self.consecutive_positive
    }

    /// Improving transitions recorded.
    pub fn positive_steps(&self) -> (n: usize)
        ensures
            n == count_improving(self@),
    {
        proof {
            use_type_invariant(self);
        }
        self.positive_steps
    }

    /// Records one transition, `improved` telling whether its reward delta
    /// is positive: the step count grows by one, and the run of improving
    /// transitions grows by one or is reset to zero.
    pub fn record_transition(&mut self, improved: bool)
        requires
            old(self)@.len() < usize::MAX,
        ensures
            final(self)@ == old(self)@.push(improved),
            trailing_improving(final(self)@) == if improved {
                trailing_improving(old(self)@) + 1
            } else {
                0
            },
            count_improving(final(self)@) == count_improving(old(self)@) + if improved {
                1nat
            } else {
                0nat
            },
    {
        proof {
            use_type_invariant(&*self);
            lemma_streak_bounds(self.history@);
            assert(self.history@.push(improved).drop_last() =~= self.history@);
        }
        let total_steps = self.total_steps + 1;
        let (consecutive_positive, positive_steps) = if improved {
            (self.consecutive_positive + 1, self.positive_steps + 1)
        } else {
            (0, self.positive_steps)
        };
        let history = Ghost(self.history@.push(improved));
        *self = ImprovementStreak { total_steps, consecutive_positive, positive_steps, history };
    }
}

/// Law: the current run of improvements never exceeds the number of
/// improving transitions, which never exceeds the number of transitions.
pub proof fn lemma_streak_bounds(h: Seq<bool>)
    ensures
        trailing_improving(h) <= count_improving(h) <= h.len(),
    decreases h.len(),
{
    if h.len() > 0 {
        lemma_streak_bounds(h.drop_last());
    }
}

/// Law: after `k` improving transitions in a row, the current run is at
/// least `k` long (a non-improving transition resets it to zero, as
/// `record_transition` states).
pub proof fn lemma_streak_of_improving_run(h: Seq<bool>, k: nat)
    requires
        k <= h.len(),
        forall|t: int| h.len() - k <= t < h.len() ==> #[trigger] h[t],
    ensures
        trailing_improving(h) >= k,
    decreases k,
{
    if k > 0 {
        let p = h.drop_last();
        assert forall|t: int| p.len() - (k - 1) <= t < p.len() implies #[trigger] p[t] by {
            assert(p[t] == h[t]);
        }
        lemma_streak_of_improving_run(p, (k - 1) as nat);
    }
}

} // verus!
