//! How many Poisson arrivals one replicate of a spectral simulation may draw.
//!
//! Each replicate draws arrivals of a Poisson process until its budget of
//! `max_points` arrivals is spent, or until a bound on the remaining
//! contributions says that no later arrival can change the running maxima;
//! that bound is only trusted once more arrivals than sites have been drawn.

use vstd::prelude::*;
use vstd::arithmetic::div_mod::{lemma_div_plus_one, lemma_basic_div};

verus! {

/// The arrival count of one replicate.
pub struct ArrivalBudget {
    max_points: usize,
    used: usize,
    warmup: usize,
}

/// Length of the next batch: `batch_size`, cut down to what is left.
pub open spec fn spec_batch_len(used: nat, max_points: nat, batch_size: nat) -> nat {
    if batch_size <= max_points - used {
        batch_size
    } else {
        (max_points - used) as nat
    }
}

/// Number of batches of at most `batch_size` arrivals that spend `remaining` arrivals.
pub open spec fn batches_to_spend(remaining: nat, batch_size: nat) -> nat
    decreases remaining,
{
    if remaining == 0 || batch_size == 0 {
        0
    } else {
        1 + batches_to_spend(
            (remaining - spec_batch_len(0, remaining, batch_size)) as nat,
            batch_size,
        )
    }
}

impl ArrivalBudget {
    /// The most arrivals the replicate may draw.
    pub closed spec fn max_points(self) -> nat {
        self.max_points as nat
    }

    /// Arrivals drawn so far.
    pub closed spec fn used(self) -> nat {
        self.used as nat
    }

    /// Arrivals that must be drawn, and exceeded, before the stopping bound counts.
    pub closed spec fn warmup(self) -> nat {
        self.warmup as nat
    }

    #[verifier::type_invariant]
    closed spec fn within_budget(self) -> bool {
        self.used <= self.max_points
    }

    /// A fresh budget of `max_points` arrivals for a field over `n_sites` sites.
    pub fn new(max_points: usize, n_sites: usize) -> (r: ArrivalBudget)
        ensures
            r.max_points() == max_points,
            r.used() == 0,
            r.warmup() == n_sites,
    {
        ArrivalBudget { max_points, used: 0, warmup: n_sites }
    }

    /// Arrivals drawn so far.
    pub fn used_points(&self) -> (r: usize)
        ensures
            r == self.used(),
    {
        self.used
    }

    /// Some arrivals are still left.
    pub fn has_room(&self) -> (r: bool)
        ensures
            r == (self.used() < self.max_points()),
    {
        self.used < self.max_points
    }

    /// Counts one more arrival if the budget allows it; `false` when the
    /// budget is spent, and then nothing changes.
    pub fn admit_arrival(&mut self) -> (r: bool)
        ensures
            r == (old(self).used() < old(self).max_points()),
            final(self).used() == (if r { old(self).used() + 1 } else { old(self).used() }),
            final(self).max_points() == old(self).max_points(),
            final(self).warmup() == old(self).warmup(),
            final(self).used() <= final(self).max_points(),
    {
        proof {
            use_type_invariant(&*self);
        }
        if self.used < self.max_points {
            self.used = self.used + 1;
            true
        } else {
            false
        }
    }

    /// Counts the next batch of at most `batch_size` arrivals: `None` when
    /// the budget is spent, else the length of the batch, cut down to what
    /// is left.
    pub fn admit_batch(&mut self, batch_size: usize) -> (r: Option<usize>)
        ensures
            r is None <==> old(self).used() == old(self).max_points(),
            r matches Some(b) ==> b == spec_batch_len(
                old(self).used(),
                old(self).max_points(),
                batch_size as nat,
            ),
            r matches Some(b) ==> b <= batch_size && b <= old(self).max_points() - old(self).used() && (b
                == batch_size || b == old(self).max_points() - old(self).used()),
            old(self).used() < old(self).max_points() && batch_size > 0 ==> (r matches Some(b) && b > 0),
            final(self).used() == old(self).used() + (match r {
                Some(b) => b as nat,
                None => 0nat,
            }),
            final(self).max_points() == old(self).max_points(),
            final(self).warmup() == old(self).warmup(),
            final(self).used() <= final(self).max_points(),
    {
        proof {
            use_type_invariant(&*self);
        }
        if self.used < self.max_points {
            let left = self.max_points - self.used;
            let b = if batch_size <= left {
                batch_size
            } else {
                left
            };
            self.used = self.used + b;
            Some(b)
        } else {
            None
        }
    }

    /// Whether the replicate stops: only when the bound says no later
    /// arrival can matter and more arrivals than sites have been drawn.
    pub fn may_stop(&self, bound_reached: bool) -> (r: bool)
        ensures
            r == (bound_reached && self.used() > self.warmup()),
    {
        bound_reached && self.used > self.warmup
    }
}

/// A batch is as long as asked, unless fewer arrivals are left, and then
/// it takes all that is left: the minimum of `batch_size` and what is
/// left, whatever has been drawn before. A non-empty request on an unspent
/// budget always makes progress.
pub proof fn lemma_batch_len_is_min(used: nat, max_points: nat, batch_size: nat)
    requires
        used <= max_points,
    ensures
        spec_batch_len(used, max_points, batch_size) <= batch_size,
        spec_batch_len(used, max_points, batch_size) <= max_points - used,
        spec_batch_len(used, max_points, batch_size) == batch_size || spec_batch_len(
            used,
            max_points,
            batch_size,
        ) == max_points - used,
        used < max_points && batch_size > 0 ==> spec_batch_len(used, max_points, batch_size) > 0,
{
}

/// The length of a batch depends only on how many arrivals are left, not on
/// how many were drawn before: a budget that has used `used` of
/// `max_points` arrivals cuts batches as a fresh budget of
/// `max_points - used` arrivals does.
pub proof fn lemma_batch_len_depends_on_what_is_left(used: nat, max_points: nat, batch_size: nat)
    requires
        used <= max_points,
    ensures
        spec_batch_len(used, max_points, batch_size) == spec_batch_len(
            0,
            (max_points - used) as nat,
            batch_size,
        ),
{
}

/// Batches of `batch_size > 0` arrivals, each cut down to what is left,
/// spend a budget of `remaining` arrivals in `ceil(remaining / batch_size)`
/// batches: every batch but possibly the last is full.
pub proof fn lemma_batches_to_spend(remaining: nat, batch_size: nat)
    requires
        batch_size > 0,
    ensures
        batches_to_spend(remaining, batch_size) == (remaining + batch_size - 1) / (batch_size as int),
    decreases remaining,
{
    let b = batch_size as int;
    if remaining == 0 {
        lemma_basic_div(b - 1, b);
    } else if remaining <= batch_size {
        assert(spec_batch_len(0, remaining, batch_size) == remaining);
        assert(batches_to_spend(0, batch_size) == 0);
        lemma_basic_div(remaining - 1, b);
        lemma_div_plus_one(remaining - 1, b);
        assert(b + (remaining - 1) == remaining + batch_size - 1);
    } else {
        let rest = (remaining - batch_size) as nat;
        assert(spec_batch_len(0, remaining, batch_size) == batch_size);
        lemma_batches_to_spend(rest, batch_size);
        lemma_div_plus_one(rest + b - 1, b);
        assert(b + (rest + b - 1) == remaining + batch_size - 1);
    }
}

} // verus!
