use vstd::prelude::*;
use crate::errors::NativeFailure;

verus! {

/// Base cost per input unit of the general-purpose 256-bit digest.
pub const SHA2_256_BASE_COST: u64 = 21;

/// Base cost per input unit of the domain-distinct 256-bit digest.
pub const SHA3_256_BASE_COST: u64 = 30;

/// Base cost per output unit of canonical serialization.
pub const BCS_TO_BYTES_BASE_COST: u64 = 10;

/// The size-proportional cost of a metered operation, saturating at the
/// largest representable charge (which no budget can afford anyway).
pub open spec fn sp_cost(base: u64, units: nat) -> u64 {
    if base * units > u64::MAX {
        u64::MAX as u64
    } else {
        (base * units) as u64
    }
}

pub fn scaled_cost(base: u64, units: usize) -> (r: u64)
    ensures
        r == sp_cost(base, units as nat),
{
    if units == 0 {
        return 0;
    }
    let u = units as u64;
    proof {
        assert((base as u128) * (u as u128) <= (u64::MAX as u128) * (u64::MAX as u128))
            by (nonlinear_arith)
            requires
                base <= u64::MAX && u <= u64::MAX,
        ;
    }
    let p: u128 = (base as u128) * (u as u128);
    if p > u64::MAX as u128 {
        u64::MAX
    } else {
        p as u64
    }
}

/// The running gas account of one executing transaction: what has been
/// charged so far and what remains of the budget.
#[derive(Copy, Clone, PartialEq, Eq, Structural, Debug)]
pub struct GasStatus {
    pub charged: u64,
    pub remaining: u64,
}

impl GasStatus {
    /// The account never exceeds its original budget, so the two counters
    /// always fit together in the unit type.
    pub open spec fn wf(self) -> bool {
        self.charged + self.remaining <= u64::MAX
    }

    /// A fresh account with nothing charged and the whole budget remaining.
    pub fn new(budget: u64) -> (r: Self)
        ensures
            r.wf(),
            r.charged == 0,
            r.remaining == budget,
    {
        GasStatus { charged: 0, remaining: budget }
    }

    /// Charge an amount. If the budget cannot cover it, what remains is
    /// consumed and the operation aborts out of gas: probing is never free.
    pub fn charge(&mut self, amount: u64) -> (r: Result<(), NativeFailure>)
        requires
            old(self).wf(),
        ensures
            final(self).wf(),
            amount <= old(self).remaining ==> r is Ok && final(self).charged == old(self).charged
                + amount && final(self).remaining == old(self).remaining - amount,
            amount > old(self).remaining ==> (r matches Err(f) && f == NativeFailure::OutOfGas)
                && final(self).charged == old(self).charged + old(self).remaining
                && final(self).remaining == 0,
    {
        if amount <= self.remaining {
            self.charged = self.charged + amount;
            self.remaining = self.remaining - amount;
            Ok(())
        } else {
            self.charged = self.charged + self.remaining;
            self.remaining = 0;
            Err(NativeFailure::OutOfGas)
        }
    }
}

} // verus!
