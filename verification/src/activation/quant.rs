//! Rounding of epochs to the grid on which a partition keeps its
//! expiration buckets.

use crate::types::ChainEpoch;
use vstd::prelude::*;

verus! {

/// A grid of epochs: those that differ from `offset` by a multiple of
/// `unit`.
#[derive(Clone, Copy, Debug, PartialEq, Eq, Structural)]
pub struct QuantSpec {
    pub unit: ChainEpoch,
    pub offset: ChainEpoch,
}

impl QuantSpec {
    /// The grid has a positive step, and its offset lies inside one step.
    pub open spec fn wf(self) -> bool {
        0 < self.unit && 0 <= self.offset < self.unit
    }

    /// The first epoch of the grid that is not before `epoch`.
    pub open spec fn spec_quantize_up(self, epoch: int) -> int {
        let d = epoch - self.offset;
        if d >= 0 {
            self.offset + ((d + self.unit - 1) / (self.unit as int)) * self.unit
        } else {
            self.offset - ((-d) / (self.unit as int)) * self.unit
        }
    }

    /// Whether `epoch` can be rounded without leaving the range of epochs.
    pub open spec fn in_range(self, epoch: ChainEpoch) -> bool {
        epoch + self.unit <= i64::MAX
    }

    /// The first epoch of the grid that is not before `epoch`.
    pub fn quantize_up(&self, epoch: ChainEpoch) -> (r: ChainEpoch)
        requires
            self.wf(),
            self.in_range(epoch),
        ensures
            r == self.spec_quantize_up(epoch as int),
    {
        proof {
            law_quantize_up(*self, epoch as int);
        }
        let unit: i128 = self.unit as i128;
        let offset: i128 = self.offset as i128;
        let d: i128 = epoch as i128 - offset;
        if d >= 0 {
            let steps: u128 = (d + unit - 1) as u128 / (unit as u128);
            assert(steps as int == (d + unit - 1) / (unit as int));
            assert(steps * unit <= d + unit - 1) by (nonlinear_arith)
                requires
                    steps as int == (d + unit - 1) / (unit as int),
                    unit > 0,
                    d >= 0,
            ;
            (offset + (steps as i128) * unit) as i64
        } else {
            let back: u128 = (-d) as u128 / (unit as u128);
            assert(back as int == (-d) / (unit as int));
            assert(back * unit <= -d) by (nonlinear_arith)
                requires
                    back as int == (-d) / (unit as int),
                    unit > 0,
                    d < 0,
            ;
            (offset - (back as i128) * unit) as i64
        }
    }
}

/// The rounded epoch is on the grid, is not before the epoch, and is less
/// than one step after it.
pub proof fn law_quantize_up(q: QuantSpec, epoch: int)
    requires
        q.wf(),
    ensures
        q.spec_quantize_up(epoch) >= epoch,
        q.spec_quantize_up(epoch) - epoch < q.unit,
        (q.spec_quantize_up(epoch) - q.offset) % (q.unit as int) == 0,
{
    let u = q.unit as int;
    let d = epoch - q.offset;
    if d >= 0 {
        let k = (d + u - 1) / u;
        vstd::arithmetic::div_mod::lemma_fundamental_div_mod(d + u - 1, u);
        let rem = (d + u - 1) % u;
        assert(0 <= rem < u);
        assert(d + u - 1 == u * k + rem);
        assert(k * u == u * k) by (nonlinear_arith);
        assert((k * u) % u == 0) by {
            vstd::arithmetic::div_mod::lemma_mod_multiples_basic(k, u);
        }
    } else {
        let k = (-d) / u;
        vstd::arithmetic::div_mod::lemma_fundamental_div_mod(-d, u);
        let rem = (-d) % u;
        assert(0 <= rem < u);
        assert(-d == u * k + rem);
        assert(k * u == u * k) by (nonlinear_arith);
        assert((-(k * u)) % u == 0) by {
            vstd::arithmetic::div_mod::lemma_mod_multiples_basic(-k, u);
            assert((-k) * u == -(k * u)) by (nonlinear_arith);
        }
    }
}

} // verus!
