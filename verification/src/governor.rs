//! The concurrency governor: a counting turnstile in front of the entries.
//!
//! The governor knows how many entries there are and hands them out by
//! index, first to last. It admits an entry only while fewer than the
//! budget are in flight, and an entry that finds no free place is not
//! lost: it is the next to be admitted once a place is released.

use vstd::prelude::*;

verus! {

/// The number of entries that may be in flight at once: a positive integer.
#[derive(Clone, Copy, Debug)]
pub struct ConcurrencyBudget {
    limit: usize,
}

impl ConcurrencyBudget {
    /// Every budget is at least one.
    #[verifier::type_invariant]
    spec fn positive(self) -> bool {
        self.limit >= 1
    }

    /// The budget as a number.
    pub closed spec fn value(self) -> nat {
        self.limit as nat
    }

    /// Makes a budget of `limit`. Every positive number is accepted and
    /// zero is refused.
    pub fn new(limit: usize) -> (r: Option<ConcurrencyBudget>)
        ensures
            r is Some <==> limit >= 1,
            r matches Some(budget) ==> budget.value() == limit,
    {
        if limit >= 1 {
            Some(ConcurrencyBudget { limit })
        } else {
            None
        }
    }

    /// The budget as a number, which is at least one.
    pub fn get(&self) -> (r: usize)
        ensures
            r == self.value(),
            r >= 1,
    {
        proof {
            use_type_invariant(self);
        }
        self.limit
    }
}

/// The counters: how many entries there are, how many were admitted and how
/// many of those have released their place.
pub struct Governor {
    budget: usize,
    total: usize,
    admitted: usize,
    released: usize,
}

impl Governor {
    /// Every governor keeps its invariant.
    #[verifier::type_invariant]
    spec fn kept(self) -> bool {
        self.wf()
    }

    /// The most entries that may be in flight at once.
    pub closed spec fn budget(self) -> nat {
        self.budget as nat
    }

    /// The number of entries of the run.
    pub closed spec fn total(self) -> nat {
        self.total as nat
    }

    /// The number of entries admitted so far. They are the entries with
    /// an index below this number.
    pub closed spec fn admitted(self) -> nat {
        self.admitted as nat
    }

    /// The number of admitted entries that have released their place.
    pub closed spec fn released(self) -> nat {
        self.released as nat
    }

    /// The number of entries in flight: admitted and not yet released.
    pub open spec fn in_flight(self) -> int {
        self.admitted() - self.released()
    }

    /// The governor's invariant: the budget is positive, no entry is
    /// released before it is admitted or admitted beyond the last, and the
    /// entries in flight are within the budget.
    pub open spec fn wf(self) -> bool {
        &&& self.budget() >= 1
        &&& self.released() <= self.admitted() <= self.total()
        &&& self.in_flight() <= self.budget()
    }

    /// Whether admission is open: an entry is waiting and a place is free.
    pub open spec fn can_admit(self) -> bool {
        self.admitted() < self.total() && self.in_flight() < self.budget()
    }

    /// Whether every entry was admitted and has released its place.
    pub open spec fn is_drained(self) -> bool {
        self.released() == self.total()
    }

    /// A governor for `total` entries under `budget`, with none admitted.
    pub fn new(budget: ConcurrencyBudget, total: usize) -> (r: Governor)
        ensures
            r.wf(),
            r.budget() == budget.value(),
            r.total() == total,
            r.admitted() == 0,
            r.released() == 0,
    {
        Governor { budget: budget.get(), total, admitted: 0, released: 0 }
    }

    /// Admits the next entry if admission is open, and returns its index.
    ///
    /// Entries are admitted in index order, each once. While admission is
    /// closed nothing changes, so the entry that was refused is the first
    /// to be admitted later.
    pub fn admit_next(&mut self) -> (r: Option<usize>)
        ensures
            final(self).wf(),
            final(self).budget() == old(self).budget(),
            final(self).total() == old(self).total(),
            final(self).released() == old(self).released(),
            r is Some <==> old(self).can_admit(),
            r matches Some(index) ==> index == old(self).admitted() && final(self).admitted()
                == old(self).admitted() + 1,
            r is None ==> final(self).admitted() == old(self).admitted(),
    {
        proof {
            use_type_invariant(&*self);
        }
        if self.admitted < self.total && self.admitted - self.released < self.budget {
            let index = self.admitted;
            self.admitted = self.admitted + 1;
            Some(index)
        } else {
            None
        }
    }

    /// Releases the place of one entry in flight. Returns `false`, and
    /// changes nothing, where no entry is in flight.
    pub fn release(&mut self) -> (r: bool)
        ensures
            final(self).wf(),
            final(self).budget() == old(self).budget(),
            final(self).total() == old(self).total(),
            final(self).admitted() == old(self).admitted(),
            r <==> old(self).in_flight() > 0,
            final(self).released() == old(self).released() + if r {
                1nat
            } else {
                0nat
            },
    {
        proof {
            use_type_invariant(&*self);
        }
        if self.released < self.admitted {
            self.released = self.released + 1;
            true
        } else {
            false
        }
    }

    /// The most entries that may be in flight at once.
    pub fn limit(&self) -> (r: usize)
        ensures
            r == self.budget(),
    {
        self.budget
    }

    /// The number of entries admitted so far.
    pub fn admitted_count(&self) -> (r: usize)
        ensures
            r == self.admitted(),
    {
        self.admitted
    }

    /// The number of entries in flight.
    pub fn in_flight_count(&self) -> (r: usize)
        ensures
            r == self.in_flight(),
            r <= self.budget(),
    {
        proof {
            use_type_invariant(self);
        }
        self.admitted - self.released
    }

    /// The number of entries that wait for admission.
    pub fn pending_count(&self) -> (r: usize)
        ensures
            r == self.total() - self.admitted(),
    {
        proof {
            use_type_invariant(self);
        }
        self.total - self.admitted
    }

    /// Tells whether every entry was admitted and has released its place.
    pub fn drained(&self) -> (r: bool)
        ensures
            r == self.is_drained(),
    {
        self.released == self.total
    }
}

/// At no time are more entries in flight than the budget allows.
pub proof fn lemma_in_flight_within_budget(governor: Governor)
    requires
        governor.wf(),
    ensures
        0 <= governor.in_flight() <= governor.budget(),
{
}

/// Admission never rejects for good: while entries wait and none is in
/// flight, the next one can be started; and while the run is not drained, either an
/// entry is in flight or the next one can be started.
pub proof fn lemma_admission_queues(governor: Governor)
    requires
        governor.wf(),
        !governor.is_drained(),
    ensures
        governor.in_flight() > 0 || governor.can_admit(),
{
}

/// Once the run is drained, every entry has been admitted and none is in
/// flight.
pub proof fn lemma_drained_means_all_admitted(governor: Governor)
    requires
        governor.wf(),
        governor.is_drained(),
    ensures
        governor.admitted() == governor.total(),
        governor.in_flight() == 0,
        !governor.can_admit(),
{
}

} // verus!
