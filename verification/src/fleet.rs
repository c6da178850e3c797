//! The agent registry of the fleet safety monitor.
//!
//! Agents are known by their id.  Registering an id gives it a slot, a new
//! one for an unknown id and the same one again for a known id (whose
//! detector then starts afresh); states and detection requests for unknown
//! ids are ignored.  Slots are handed out in order of first registration.

use vstd::prelude::*;

verus! {

/// `s` holds no id twice.
pub open spec fn distinct_ids(s: Seq<Seq<char>>) -> bool {
    forall|a: int, b: int| 0 <= a < b < s.len() ==> s[a] != s[b]
}

/// The ids among `ids` whose flag is set, in slot order.
pub open spec fn flagged_ids(ids: Seq<Seq<char>>, flags: Seq<bool>) -> Seq<Seq<char>>
    decreases ids.len(),
{
    if ids.len() == 0 || flags.len() == 0 {
        Seq::empty()
    } else {
        let rest = flagged_ids(ids.drop_last(), flags.drop_last());
        if flags.last() {
            rest.push(ids.last())
        } else {
            rest
        }
    }
}

/// The registered agent ids, one per slot.
#[derive(Clone, Debug)]
pub struct AgentRegistry {
    ids: Vec<String>,
}

impl View for AgentRegistry {
    type V = Seq<Seq<char>>;

    closed spec fn view(&self) -> Seq<Seq<char>> {
        self.ids@.map_values(|s: String| s@)
    }
}

impl AgentRegistry {
    /// No id is registered twice.
    pub open spec fn wf(&self) -> bool {
        distinct_ids(self@)
    }

    /// A registry with no agents.
    pub fn new() -> (r: Self)
        ensures
            r.wf(),
            r@ == Seq::<Seq<char>>::empty(),
    {
        AgentRegistry { ids: Vec::new() }
    }

    /// Number of registered agents.
    pub fn len(&self) -> (n: usize)
        ensures
            n == self@.len(),
    {
        self.ids.len()
    }

    /// The id registered in `slot`.
    pub fn id_at(&self, slot: usize) -> (id: &String)
        requires
            slot < self@.len(),
        ensures
            id@ == self@[slot as int],
    {
        &self.ids[slot]
    }

    /// The slot of the agent `id`, or `None` when it is not registered.
    pub fn slot_of(&self, id: &str) -> (slot: Option<usize>)
        requires
            self.wf(),
        ensures
            match slot {
                Some(k) => k < self@.len() && self@[k as int] == id@,
                None => !self@.contains(id@),
            },
    {
        let key: String = id.to_owned();
        let mut k: usize = 0;
        while k < self.ids.len()
            invariant
                k <= self.ids@.len(),
                key@ == id@,
                forall|t: int| 0 <= t < k ==> self@[t] != id@,
            decreases self.ids@.len() - k,
        {
            if self.ids[k] == key {
                return Some(k);
            }
            k = k + 1;
        }
        proof {
            if self@.contains(id@) {
                let t = choose|t: int| 0 <= t < self@.len() && self@[t] == id@;
                assert(self@[t] == id@);
            }
        }
        None
    }

    /// Registers the agent `id` and returns its slot: its existing slot when
    /// already registered (the registry is then unchanged), else a new slot
    /// at the end.
    pub fn register(&mut self, id: String) -> (slot: usize)
        requires
            old(self).wf(),
        ensures
            final(self).wf(),
            old(self)@.contains(id@) ==> final(self)@ == old(self)@,
            !old(self)@.contains(id@) ==> final(self)@ == old(self)@.push(id@),
            slot < final(self)@.len(),
            final(self)@[slot as int] == id@,
    {
        match self.slot_of(id.as_str()) {
            Some(k) => k,
            None => {
                let ghost before = self@;
                let ghost key = id@;
                self.ids.push(id);
                proof {
                    assert(self@ =~= before.push(key));
                    assert forall|a: int, b: int| 0 <= a < b < self@.len() implies self@[a]
                        != self@[b] by {
                        if b == before.len() {
                            assert(before[a] == self@[a]);
                            assert(before.contains(before[a]));
                        }
                    }
                }
                self.ids.len() - 1
            },
        }
    }

    /// The ids of the agents whose flag is set, in slot order; `flags[k]`
    /// belongs to the agent in slot `k`.
    pub fn flagged(&self, flags: &Vec<bool>) -> (ids: Vec<String>)
        requires
            flags@.len() == self@.len(),
        ensures
            ids@.map_values(|s: String| s@) == flagged_ids(self@, flags@),
    {
        let mut out: Vec<String> = Vec::new();
        let mut k: usize = 0;
        while k < self.ids.len()
            invariant
                k <= self.ids@.len(),
                flags@.len() == self.ids@.len(),
                out@.map_values(|s: String| s@) == flagged_ids(
                    self@.take(k as int),
                    flags@.take(k as int),
                ),
            decreases self.ids@.len() - k,
        {
            proof {
                assert(self@.take(k + 1).drop_last() =~= self@.take(k as int));
                assert(flags@.take(k + 1).drop_last() =~= flags@.take(k as int));
            }
            if flags[k] {
                let ghost before = out@;
                out.push(self.ids[k].clone());
                proof {
                    assert(out@.map_values(|s: String| s@) =~= before.map_values(|s: String| s@).push(
                        self@[k as int],
                    ));
                }
            }
            k = k + 1;
        }
        proof {
            assert(self@.take(self@.len() as int) =~= self@);
            assert(flags@.take(flags@.len() as int) =~= flags@);
            lemma_flagged_ids_exactly(self@, flags@);
        }
        out
    }

    /// What the fleet's total risk is divided by: the number of agents, or
    /// one for an empty fleet.
    pub fn risk_divisor(&self) -> (d: usize)
        ensures
            d == if self@.len() == 0 { 1 } else { self@.len() },
    {
        if self.ids.len() == 0 {
            1
        } else {
            self.ids.len()
        }
    }
}

/// Law: registering an id is idempotent — registering a registered id
/// leaves the registry unchanged (`register`'s contract) and hands out the
/// one slot that already holds it, since no id has two slots.
pub proof fn lemma_register_again_same_slot(
    ids: Seq<Seq<char>>,
    id: Seq<char>,
    first_slot: int,
    second_slot: int,
)
    requires
        distinct_ids(ids),
        0 <= first_slot < ids.len(),
        0 <= second_slot < ids.len(),
        ids[first_slot] == id,
        ids[second_slot] == id,
    ensures
        first_slot == second_slot,
{
}

/// Law (fleet report): the flagged ids are exactly the registered ids whose
/// flag is set, each listed once when the registry holds no id twice.
pub proof fn lemma_flagged_ids_exactly(ids: Seq<Seq<char>>, flags: Seq<bool>)
    requires
        flags.len() == ids.len(),
    ensures
        distinct_ids(ids) ==> distinct_ids(flagged_ids(ids, flags)),
        forall|id: Seq<char>|
            flagged_ids(ids, flags).contains(id) <==> exists|k: int|
                0 <= k < ids.len() && #[trigger] ids[k] == id && flags[k],
    decreases ids.len(),
{
    if ids.len() > 0 {
        let pi = ids.drop_last();
        let pf = flags.drop_last();
        lemma_flagged_ids_exactly(pi, pf);
        let rest = flagged_ids(pi, pf);
        let cur = flagged_ids(ids, flags);
        let last = ids.len() - 1;
        assert forall|id: Seq<char>| cur.contains(id) <==> exists|k: int|
            0 <= k < ids.len() && #[trigger] ids[k] == id && flags[k] by {
            if cur.contains(id) {
                let t = choose|t: int| 0 <= t < cur.len() && cur[t] == id;
                if t < rest.len() {
                    assert(rest[t] == cur[t]);
                    assert(rest.contains(id));
                    let k = choose|k: int| 0 <= k < pi.len() && #[trigger] pi[k] == id && pf[k];
                    assert(ids[k] == pi[k] && flags[k] == pf[k]);
                } else {
                    assert(ids[last] == id && flags[last]);
                }
            }
            if exists|k: int| 0 <= k < ids.len() && #[trigger] ids[k] == id && flags[k] {
                let k = choose|k: int| 0 <= k < ids.len() && #[trigger] ids[k] == id && flags[k];
                if k < last {
                    assert(pi[k] == ids[k] && pf[k] == flags[k]);
                    assert(rest.contains(id));
                    let t = choose|t: int| 0 <= t < rest.len() && rest[t] == id;
                    assert(cur[t] == id);
                } else {
                    assert(cur[cur.len() - 1] == id);
                }
            }
        }
        if distinct_ids(ids) {
            assert(distinct_ids(pi)) by {
                assert forall|a: int, b: int| 0 <= a < b < pi.len() implies pi[a] != pi[b] by {
                    assert(pi[a] == ids[a] && pi[b] == ids[b]);
                }
            }
            if flags[last] {
                assert forall|a: int, b: int| 0 <= a < b < cur.len() implies cur[a] != cur[b] by {
                    if b == rest.len() {
                        assert(cur[a] == rest[a]);
                        assert(rest.contains(rest[a]));
                        let k = choose|k: int| 0 <= k < pi.len() && #[trigger] pi[k] == rest[a] && pf[k];
                        assert(ids[k] == pi[k]);
                        assert(cur[b] == ids[last]);
                    } else {
                        assert(cur[a] == rest[a] && cur[b] == rest[b]);
                    }
                }
            }
        }
    }
}

} // verus!
