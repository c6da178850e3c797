//! Sticky flags of the global divergence detector.
//!
//! Every recorded state is a visit.  A visit that comes back within the
//! revisit threshold of an earlier state marks the agent as cycling; from
//! the third visit on, a visit whose last three displacements from the start
//! strictly increase marks it as diverging.  Neither flag is ever cleared.

use vstd::prelude::*;

verus! {

/// What one visit showed: whether it revisited an earlier state, and whether
/// the last three displacements from the start strictly increased.
#[derive(Clone, Copy, Debug)]
pub struct VisitSignal {
    /// The visit came back within the revisit threshold of an earlier state.
    pub revisited: bool,
    /// The last three displacements from the start strictly increased.
    pub displacement_rising: bool,
}

/// Some visit of `h` revisited an earlier state.
pub open spec fn ever_revisited(h: Seq<(bool, bool)>) -> bool {
    exists|t: int| 0 <= t < h.len() && (#[trigger] h[t]).0
}

/// Some visit of `h`, from the third on, had rising displacements.
pub open spec fn ever_rising(h: Seq<(bool, bool)>) -> bool {
    exists|t: int| 2 <= t < h.len() && (#[trigger] h[t]).1
}

/// Flags of the global divergence detector over the history of visits.
pub struct CycleFlags {
    visits: usize,
    cycling_detected: bool,
    diverging: bool,
    history: Ghost<Seq<(bool, bool)>>,
}

impl View for CycleFlags {
    type V = Seq<(bool, bool)>;

    /// Per visit: (revisited, displacement rising), oldest first.
    closed spec fn view(&self) -> Seq<(bool, bool)> {
        self.history@
    }
}

impl Clone for CycleFlags {
    /// A copy with the same history and flags.
    fn clone(&self) -> (c: Self)
        ensures
            c@ == self@,
    {
        proof {
            use_type_invariant(self);
        }
        CycleFlags {
            visits: self.visits,
            cycling_detected: self.cycling_detected,
            diverging: self.diverging,
            history: Ghost(self.history@),
        }
    }
}

impl CycleFlags {
    /// The counter and flags agree with the history.
    #[verifier::type_invariant]
    spec fn flags_match(&self) -> bool {
        &&& self.visits == self.history@.len()
        &&& self.cycling_detected == ever_revisited(self.history@)
        &&& self.diverging == ever_rising(self.history@)
    }

    /// Flags over no visits: neither cycling nor diverging.
    pub fn new() -> (f: Self)
        ensures
            f@ == Seq::<(bool, bool)>::empty(),
    {
        CycleFlags { visits: 0, cycling_detected: false, diverging: false, history: Ghost(Seq::empty()) }
    }

    /// Visits recorded.
    pub fn visits(&self) -> (n: usize)
        ensures
            n == self@.len(),
    {
        proof {
            use_type_invariant(self);
        }
        self.visits
    }

    /// Whether some visit came back near an earlier state.
    pub fn cycling_detected(&self) -> (b: bool)
        ensures
            b == ever_revisited(self@),
    {
        proof {
            use_type_invariant(self);
        }
        self.cycling_detected
    }

    /// Whether displacement from the start has ever risen three times in a row.
    pub fn diverging(&self) -> (b: bool)
        ensures
            b == ever_rising(self@),
    {
        proof {
            use_type_invariant(self);
        }
        self.diverging
    }

    /// Whether the displacement trend is looked at on the next visit: only
    /// once three displacements exist, i.e. from the third visit on.
    pub fn trend_checked_next(&self) -> (b: bool)
        ensures
            b == (self@.len() + 1 >= 3),
    {
        proof {
            use_type_invariant(self);
        }
        self.visits >= 2
    }

    /// Records one visit and returns whether it revisited an earlier state.
    /// Cycling is set by a revisit; divergence by rising displacements from
    /// the third visit on; a set flag stays set.
    pub fn record_visit(&mut self, signal: VisitSignal) -> (revisited: bool)
        requires
            old(self)@.len() < usize::MAX,
        ensures
            final(self)@ == old(self)@.push((signal.revisited, signal.displacement_rising)),
            revisited == signal.revisited,
            ever_revisited(final(self)@) == (ever_revisited(old(self)@) || signal.revisited),
            ever_rising(final(self)@) == (ever_rising(old(self)@) || (old(self)@.len() >= 2
                && signal.displacement_rising)),
    {
        proof {
            use_type_invariant(&*self);
        }
        let ghost h = self.history@;
        let ghost e = (signal.revisited, signal.displacement_rising);
        proof {
            let h2 = h.push(e);
            if ever_revisited(h) {
                let t = choose|t: int| 0 <= t < h.len() && (#[trigger] h[t]).0;
                assert(h2[t] == h[t]);
            }
            if ever_rising(h) {
                let t = choose|t: int| 2 <= t < h.len() && (#[trigger] h[t]).1;
                assert(h2[t] == h[t]);
            }
            if ever_revisited(h2) && !signal.revisited {
                let t = choose|t: int| 0 <= t < h2.len() && (#[trigger] h2[t]).0;
                assert(h[t] == h2[t]);
            }
            if ever_rising(h2) && !(h.len() >= 2 && signal.displacement_rising) {
                let t = choose|t: int| 2 <= t < h2.len() && (#[trigger] h2[t]).1;
                assert(h[t] == h2[t]);
            }
            assert(h2[h.len() as int] == e);
        }
        let cycling_detected = self.cycling_detected || signal.revisited;
        let diverging = self.diverging || (self.visits >= 2 && signal.displacement_rising);
        *self = CycleFlags {
            visits: self.visits + 1,
            cycling_detected,
            diverging,
            history: Ghost(h.push(e)),
        };
        signal.revisited
    }
}

/// Law: the flags are sticky — once a history shows cycling or divergence,
/// every longer history extending it does too.
pub proof fn lemma_flags_sticky(h: Seq<(bool, bool)>, more: Seq<(bool, bool)>)
    ensures
        ever_revisited(h) ==> ever_revisited(h + more),
        ever_rising(h) ==> ever_rising(h + more),
{
    if ever_revisited(h) {
        let t = choose|t: int| 0 <= t < h.len() && (#[trigger] h[t]).0;
        assert((h + more)[t] == h[t]);
    }
    if ever_rising(h) {
        let t = choose|t: int| 2 <= t < h.len() && (#[trigger] h[t]).1;
        assert((h + more)[t] == h[t]);
    }
}

} // verus!
