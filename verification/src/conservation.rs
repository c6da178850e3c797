//! Record keeping of the conservation-law (Noether charge) monitor.
//!
//! Each record carries one value per monitored charge.  Violations compare
//! the last record with the first, so nothing is compared, and no violation
//! is reported, until a second record exists; from then on the monitor is
//! violated exactly when some charge of the latest comparison drifted past
//! the tolerance.

use vstd::prelude::*;

verus! {

/// Record keeping of the conservation monitor.
#[derive(Clone, Debug)]
pub struct ChargeLedger {
    /// Number of monitored charges; every record has this many values.
    pub num_charges: usize,
    /// Records received so far.
    pub records: usize,
    /// Whether the latest comparison found a charge past the tolerance.
    pub violated: bool,
}

impl ChargeLedger {
    /// A ledger for `num_charges` charges with no records and no violation.
    pub fn new(num_charges: usize) -> (l: Self)
        ensures
            l.num_charges == num_charges,
            l.records == 0,
            !l.violated,
    {
        ChargeLedger { num_charges, records: 0, violated: false }
    }

    /// Accounts for one more record.  `exceeded[i]` tells whether charge `i`
    /// of this record differs from the first record by more than the
    /// tolerance.  Returns whether the first and last records were compared,
    /// which happens from the second record on; only then is the violation
    /// flag recomputed.
    pub fn record(&mut self, exceeded: &Vec<bool>) -> (compared: bool)
        requires
            exceeded@.len() == old(self).num_charges,
            old(self).records < usize::MAX,
        ensures
            final(self).num_charges == old(self).num_charges,
            final(self).records == old(self).records + 1,
            compared == (final(self).records >= 2),
            compared ==> (final(self).violated <==> exists|i: int|
                0 <= i < exceeded@.len() && #[trigger] exceeded@[i]),
            !compared ==> final(self).violated == old(self).violated,
    {
        self.records = self.records + 1;
        if self.records < 2 {
            return false;
        }
        let mut any = false;
        let mut i: usize = 0;
        while i < exceeded.len()
            invariant
                i <= exceeded@.len(),
                any <==> exists|t: int| 0 <= t < i && #[trigger] exceeded@[t],
            decreases exceeded@.len() - i,
        {
            if exceeded[i] {
                any = true;
            }
            i = i + 1;
        }
        self.violated = any;
        true
    }

    /// The number of steps the drift is spread over: one less than the
    /// number of records, or `None` before a second record exists.
    pub fn drift_steps(&self) -> (steps: Option<usize>)
        ensures
            self.records < 2 ==> steps is None,
            self.records >= 2 ==> steps == Some((self.records - 1) as usize),
    {
        if self.records < 2 {
            None
        } else {
            Some(self.records - 1)
        }
    }
}

} // verus!
