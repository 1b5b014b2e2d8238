//! The numerical health of a run.
//!
//! A batch whose scores have no usable spread (fewer than two rollouts, all
//! scores equal, a score that is not finite) gets zero advantages and moves
//! no parameter. Such batches are counted, so that a run that ends on
//! untouched or unreliable parameters can be told from a sound one.

use vstd::prelude::*;

verus! {

/// Whether the scores of a batch can be standardized.
#[derive(Clone, Copy, Debug, PartialEq, Eq, Structural)]
pub enum Spread {
    /// The batch has a finite sample standard deviation to divide by.
    Usable,
    /// It has none: the advantages of the batch are zero.
    Degenerate,
}

/// What a run reports of its batches.
#[derive(Clone, Copy, Debug, PartialEq, Eq, Structural)]
pub enum Verdict {
    /// Every batch was standardized.
    Stable,
    /// Some batches had no usable spread; `batches` counts them.
    Unstable { batches: usize },
}

/// Counts the degenerate batches of a run. The count stops at `usize::MAX`.
#[derive(Clone, Copy, Debug)]
pub struct Health {
    degenerate: usize,
}

impl View for Health {
    type V = nat;

    closed spec fn view(&self) -> nat {
        self.degenerate as nat
    }
}

/// The count after one more batch.
pub open spec fn count_after(count: nat, spread: Spread) -> nat {
    if spread == Spread::Degenerate && count < usize::MAX {
        count + 1
    } else {
        count
    }
}

/// The verdict that goes with a count of degenerate batches.
pub open spec fn verdict_of(count: nat) -> Verdict {
    if count == 0 {
        Verdict::Stable
    } else {
        Verdict::Unstable { batches: count as usize }
    }
}

impl Health {
    /// The health of a run that has seen no batch.
    pub fn new() -> (health: Health)
        ensures
            health@ == 0,
    {
        Health { degenerate: 0 }
    }

    /// Takes note of one batch.
    pub fn record(&mut self, spread: Spread)
        ensures
            final(self)@ == count_after(old(self)@, spread),
    {
        if spread == Spread::Degenerate && self.degenerate < usize::MAX {
            self.degenerate = self.degenerate + 1;
        }
    }

    /// The verdict on the batches seen so far.
    pub fn verdict(&self) -> (verdict: Verdict)
        ensures
            verdict == verdict_of(self@),
    {
        if self.degenerate == 0 {
            Verdict::Stable
        } else {
            Verdict::Unstable { batches: self.degenerate }
        }
    }
}

/// One degenerate batch is enough, and needed, to make a run unstable: a
/// stable run stays stable through usable batches only, and no batch makes an
/// unstable run stable again.
pub proof fn lemma_verdict_sticks(count: nat, spread: Spread)
    requires
        count <= usize::MAX,
    ensures
        verdict_of(count_after(count, spread)) == Verdict::Stable <==> verdict_of(count)
            == Verdict::Stable && spread == Spread::Usable,
{
}

} // verus!
